use vstd::prelude::*;

use crate::schema::{fields_model, lemma_fields_model, Dtype, FieldModel, SchemaField, SchemaSpec};
use crate::value::{
    default_model, default_value, entries_model, find_entry, first_entry, kind_text,
    lemma_entries_model, lemma_first_entry, lemma_items_model, items_model, mismatch, scalar_fits,
    fits_scalar, signed, unsigned, Value, ValueError, ValueErrorModel, ValueModel,
};

verus! {

/// One present entry of a leaf column. Integers are widened to 128 bits;
/// floating-point numbers keep their IEEE 754 bits and their width.
#[derive(Debug, PartialEq)]
pub enum Cell {
    Bool(bool),
    Unsigned(u128),
    Signed(i128),
    Single(u32),
    Double(u64),
    Text(String),
    Bytes(Vec<u8>),
}

/// A column of rows: leaf cells of one dtype, a Struct of named child
/// columns with a row validity, or a List whose rows are columns of their own.
#[derive(Debug, PartialEq)]
pub enum Column {
    Leaf { dtype: SchemaSpec, cells: Vec<Option<Cell>> },
    Struct { validity: Vec<bool>, fields: Vec<NamedColumn> },
    List { inner: SchemaSpec, rows: Vec<Option<Column>> },
}

/// A column with its name.
#[derive(Debug, PartialEq)]
pub struct NamedColumn {
    pub name: String,
    pub data: Column,
}

/// Mathematical model of a cell.
pub enum CellModel {
    Bool(bool),
    Unsigned(int),
    Signed(int),
    Single(u32),
    Double(u64),
    Text(Seq<char>),
    Bytes(Seq<u8>),
}

/// Mathematical model of a column.
pub enum ColumnModel {
    Leaf(Dtype, Seq<Option<CellModel>>),
    Struct(Seq<bool>, Seq<(Seq<char>, ColumnModel)>),
    List(Dtype, Seq<Option<ColumnModel>>),
}

impl View for Cell {
    type V = CellModel;

    open spec fn view(&self) -> CellModel {
        match self {
            Cell::Bool(b) => CellModel::Bool(*b),
            Cell::Unsigned(n) => CellModel::Unsigned(*n as int),
            Cell::Signed(n) => CellModel::Signed(*n as int),
            Cell::Single(b) => CellModel::Single(*b),
            Cell::Double(b) => CellModel::Double(*b),
            Cell::Text(s) => CellModel::Text(s@),
            Cell::Bytes(b) => CellModel::Bytes(b@),
        }
    }
}

/// The models of optional cells.
pub open spec fn cells_model(cells: Seq<Option<Cell>>) -> Seq<Option<CellModel>> {
    cells.map_values(
        |c: Option<Cell>|
            match c {
                Some(c) => Some(c@),
                None => None,
            },
    )
}

impl Column {
    /// The mathematical model of this column.
    pub open spec fn model(&self) -> ColumnModel
        decreases self,
    {
        match self {
            Column::Leaf { dtype, cells } => ColumnModel::Leaf(dtype@, cells_model(cells@)),
            Column::Struct { validity, fields } => ColumnModel::Struct(
                validity@,
                named_model(fields@),
            ),
            Column::List { inner, rows } => ColumnModel::List(inner@, rows_model(rows@)),
        }
    }
}

/// The models of named columns.
pub open spec fn named_model(columns: Seq<NamedColumn>) -> Seq<(Seq<char>, ColumnModel)>
    decreases columns,
{
    if columns.len() == 0 {
        Seq::empty()
    } else {
        proof {
            assert(decreases_to!(columns => columns.drop_last()));
            assert(decreases_to!(columns => columns[columns.len() - 1]));
        }
        named_model(columns.drop_last()).push(
            (columns.last().name@, columns.last().data.model()),
        )
    }
}

/// The models of optional columns.
pub open spec fn rows_model(rows: Seq<Option<Column>>) -> Seq<Option<ColumnModel>>
    decreases rows,
{
    if rows.len() == 0 {
        Seq::empty()
    } else {
        proof {
            assert(decreases_to!(rows => rows.drop_last()));
            assert(decreases_to!(rows => rows[rows.len() - 1]));
        }
        rows_model(rows.drop_last()).push(
            match rows.last() {
                Some(c) => Some(c.model()),
                None => None,
            },
        )
    }
}

impl View for Column {
    type V = ColumnModel;

    open spec fn view(&self) -> ColumnModel {
        self.model()
    }
}

/// Named column models line up one for one with the columns.
pub proof fn lemma_named_model(columns: Seq<NamedColumn>)
    ensures
        named_model(columns).len() == columns.len(),
        forall|j: int|
            0 <= j < columns.len() ==> #[trigger] named_model(columns)[j] == (
            columns[j].name@,
            columns[j].data@,
            ),
    decreases columns.len(),
{
    if columns.len() > 0 {
        lemma_named_model(columns.drop_last());
    }
}

/// Row models line up one for one with the rows.
pub proof fn lemma_rows_model(rows: Seq<Option<Column>>)
    ensures
        rows_model(rows).len() == rows.len(),
        forall|j: int|
            0 <= j < rows.len() ==> #[trigger] rows_model(rows)[j] == match rows[j] {
                Some(c) => Some(c@),
                None => None::<ColumnModel>,
            },
    decreases rows.len(),
{
    if rows.len() > 0 {
        lemma_rows_model(rows.drop_last());
    }
}


/// The cell that stands for a leaf value.
pub open spec fn cell_model(v: ValueModel) -> CellModel {
    match v {
        ValueModel::Boolean(b) => CellModel::Bool(b),
        ValueModel::UInt8(x) => CellModel::Unsigned(x as int),
        ValueModel::UInt16(x) => CellModel::Unsigned(x as int),
        ValueModel::UInt32(x) => CellModel::Unsigned(x as int),
        ValueModel::UInt64(x) => CellModel::Unsigned(x as int),
        ValueModel::UInt128(x) => CellModel::Unsigned(x as int),
        ValueModel::Int8(x) => CellModel::Signed(x as int),
        ValueModel::Int16(x) => CellModel::Signed(x as int),
        ValueModel::Int32(x) => CellModel::Signed(x as int),
        ValueModel::Int64(x) => CellModel::Signed(x as int),
        ValueModel::Int128(x) => CellModel::Signed(x as int),
        ValueModel::Float32(b) => CellModel::Single(b),
        ValueModel::Float64(b) => CellModel::Double(b),
        ValueModel::String(s) => CellModel::Text(s),
        ValueModel::Binary(b) => CellModel::Bytes(b),
        _ => CellModel::Bool(false),
    }
}

/// The models of optional values.
pub open spec fn options_model(rows: Seq<Option<Value>>) -> Seq<Option<ValueModel>> {
    rows.map_values(
        |r: Option<Value>|
            match r {
                Some(v) => Some(v@),
                None => None,
            },
    )
}

/// Leaf cells for some rows: a missing or null row is an empty cell, a
/// present value must fit the dtype; the first row that does not gives the
/// error.
pub open spec fn leaf_cells(d: Dtype, rows: Seq<Option<ValueModel>>) -> Result<
    Seq<Option<CellModel>>,
    ValueErrorModel,
>
    decreases rows.len(),
{
    if rows.len() == 0 {
        Ok(Seq::empty())
    } else {
        match leaf_cells(d, rows.drop_last()) {
            Err(e) => Err(e),
            Ok(prefix) => match rows.last() {
                None => Ok(prefix.push(None)),
                Some(v) => if v is Null {
                    Ok(prefix.push(None))
                } else if scalar_fits(v, d) {
                    Ok(prefix.push(Some(cell_model(v))))
                } else {
                    Err(ValueErrorModel::Mismatch(kind_text(v), d))
                },
            },
        }
    }
}

/// Which rows hold a record: missing and null rows do not, maps do, and any
/// other value is an error (the first one in row order).
pub open spec fn struct_validity(d: Dtype, rows: Seq<Option<ValueModel>>) -> Result<
    Seq<bool>,
    ValueErrorModel,
>
    decreases rows.len(),
{
    if rows.len() == 0 {
        Ok(Seq::empty())
    } else {
        match struct_validity(d, rows.drop_last()) {
            Err(e) => Err(e),
            Ok(prefix) => match rows.last() {
                None => Ok(prefix.push(false)),
                Some(v) => match v {
                    ValueModel::Null => Ok(prefix.push(false)),
                    ValueModel::Mapping(_) => Ok(prefix.push(true)),
                    _ => Err(ValueErrorModel::Mismatch(kind_text(v), d)),
                },
            },
        }
    }
}

/// The value of one field in each row: the first entry of that name, or the
/// field's default when the record lacks it; no value for rows without a
/// record.
pub open spec fn child_rows(rows: Seq<Option<ValueModel>>, f: FieldModel) -> Seq<
    Option<ValueModel>,
> {
    rows.map_values(
        |r: Option<ValueModel>|
            match r {
                Some(ValueModel::Mapping(es)) => Some(
                    match first_entry(es, f.name) {
                        Some(i) => es[i].1,
                        None => default_model(f.dtype),
                    },
                ),
                _ => None,
            },
    )
}

/// The column that holds some rows of values of a dtype.
pub open spec fn build_model(d: Dtype, rows: Seq<Option<ValueModel>>) -> Result<
    ColumnModel,
    ValueErrorModel,
>
    decreases d, 0nat,
{
    match d {
        Dtype::Struct(fields) => match struct_validity(d, rows) {
            Err(e) => Err(e),
            Ok(validity) => match build_fields(fields, rows) {
                Ok(children) => Ok(ColumnModel::Struct(validity, children)),
                Err(e) => Err(e),
            },
        },
        Dtype::List(inner) => match list_rows(*inner, rows) {
            Ok(lists) => Ok(ColumnModel::List(*inner, lists)),
            Err(e) => Err(e),
        },
        _ => match leaf_cells(d, rows) {
            Ok(cells) => Ok(ColumnModel::Leaf(d, cells)),
            Err(e) => Err(e),
        },
    }
}

/// One child column per field, in field order; the first field that fails
/// gives the error.
pub open spec fn build_fields(fields: Seq<FieldModel>, rows: Seq<Option<ValueModel>>) -> Result<
    Seq<(Seq<char>, ColumnModel)>,
    ValueErrorModel,
>
    decreases fields, 0nat,
{
    if fields.len() == 0 {
        Ok(Seq::empty())
    } else {
        proof {
            assert(decreases_to!(fields => fields.drop_last()));
            assert(decreases_to!(fields => fields[fields.len() - 1]));
        }
        match build_fields(fields.drop_last(), rows) {
            Err(e) => Err(e),
            Ok(prefix) => match build_model(fields.last().dtype, child_rows(rows, fields.last())) {
                Ok(c) => Ok(prefix.push((fields.last().name, c))),
                Err(e) => Err(e),
            },
        }
    }
}

/// The rows of a List column: missing and null rows are null lists, a list
/// value becomes the column of its elements, any other value is an error;
/// the first failing row gives the error.
pub open spec fn list_rows(inner: Dtype, rows: Seq<Option<ValueModel>>) -> Result<
    Seq<Option<ColumnModel>>,
    ValueErrorModel,
>
    decreases inner, rows.len(),
{
    if rows.len() == 0 {
        Ok(Seq::empty())
    } else {
        match list_rows(inner, rows.drop_last()) {
            Err(e) => Err(e),
            Ok(prefix) => match rows.last() {
                None => Ok(prefix.push(None)),
                Some(v) => match v {
                    ValueModel::Null => Ok(prefix.push(None)),
                    ValueModel::List(items) => match build_model(
                        inner,
                        items.map_values(|x: ValueModel| Some(x)),
                    ) {
                        Ok(c) => Ok(prefix.push(Some(c))),
                        Err(e) => Err(e),
                    },
                    _ => Err(ValueErrorModel::Mismatch(kind_text(v), Dtype::List(Box::new(inner)))),
                },
            },
        }
    }
}


/// The model of a build result.
pub open spec fn column_result(r: Result<Column, ValueError>) -> Result<ColumnModel, ValueErrorModel> {
    match r {
        Ok(c) => Ok(c@),
        Err(e) => Err(e@),
    }
}

/// Once a prefix of the rows fails as leaf cells, all rows fail the same way.
pub proof fn lemma_leaf_cells_err(d: Dtype, rows: Seq<Option<ValueModel>>, k: int)
    requires
        0 <= k <= rows.len(),
        leaf_cells(d, rows.take(k)) is Err,
    ensures
        leaf_cells(d, rows) == leaf_cells(d, rows.take(k)),
    decreases rows.len(),
{
    if rows.len() > k {
        assert(rows.drop_last().take(k) =~= rows.take(k));
        lemma_leaf_cells_err(d, rows.drop_last(), k);
    } else {
        assert(rows.take(k) =~= rows);
    }
}

/// Once a prefix of the rows fails as Struct rows, all rows fail the same way.
pub proof fn lemma_struct_validity_err(d: Dtype, rows: Seq<Option<ValueModel>>, k: int)
    requires
        0 <= k <= rows.len(),
        struct_validity(d, rows.take(k)) is Err,
    ensures
        struct_validity(d, rows) == struct_validity(d, rows.take(k)),
    decreases rows.len(),
{
    if rows.len() > k {
        assert(rows.drop_last().take(k) =~= rows.take(k));
        lemma_struct_validity_err(d, rows.drop_last(), k);
    } else {
        assert(rows.take(k) =~= rows);
    }
}

/// Once a prefix of the rows fails as List rows, all rows fail the same way.
pub proof fn lemma_list_rows_err(inner: Dtype, rows: Seq<Option<ValueModel>>, k: int)
    requires
        0 <= k <= rows.len(),
        list_rows(inner, rows.take(k)) is Err,
    ensures
        list_rows(inner, rows) == list_rows(inner, rows.take(k)),
    decreases rows.len(),
{
    if rows.len() > k {
        assert(rows.drop_last().take(k) =~= rows.take(k));
        lemma_list_rows_err(inner, rows.drop_last(), k);
    } else {
        assert(rows.take(k) =~= rows);
    }
}

/// Once a prefix of the fields fails to build, all fields fail the same way.
pub proof fn lemma_build_fields_err(fields: Seq<FieldModel>, rows: Seq<Option<ValueModel>>, k: int)
    requires
        0 <= k <= fields.len(),
        build_fields(fields.take(k), rows) is Err,
    ensures
        build_fields(fields, rows) == build_fields(fields.take(k), rows),
    decreases fields.len(),
{
    if fields.len() > k {
        assert(fields.drop_last().take(k) =~= fields.take(k));
        lemma_build_fields_err(fields.drop_last(), rows, k);
    } else {
        assert(fields.take(k) =~= fields);
    }
}

/// The cell of a leaf value.
pub fn to_cell(value: &Value) -> (r: Cell)
    ensures
        r@ == cell_model(value@),
{
    match value {
        Value::Boolean(b) => Cell::Bool(*b),
        Value::UInt8(x) => Cell::Unsigned(*x as u128),
        Value::UInt16(x) => Cell::Unsigned(*x as u128),
        Value::UInt32(x) => Cell::Unsigned(*x as u128),
        Value::UInt64(x) => Cell::Unsigned(*x as u128),
        Value::UInt128(x) => Cell::Unsigned(*x),
        Value::Int8(x) => Cell::Signed(*x as i128),
        Value::Int16(x) => Cell::Signed(*x as i128),
        Value::Int32(x) => Cell::Signed(*x as i128),
        Value::Int64(x) => Cell::Signed(*x as i128),
        Value::Int128(x) => Cell::Signed(*x),
        Value::Float32(b) => Cell::Single(*b),
        Value::Float64(b) => Cell::Double(*b),
        Value::String(s) => Cell::Text(s.clone()),
        Value::Binary(b) => {
            let copy = b.clone();
            assert(copy@ =~= b@);
            Cell::Bytes(copy)
        },
        _ => Cell::Bool(false),
    }
}

/// The cells of a leaf column.
fn build_leaf(schema: &SchemaSpec, rows: &Vec<Option<Value>>) -> (r: Result<
    Vec<Option<Cell>>,
    ValueError,
>)
    ensures
        match r {
            Ok(cells) => leaf_cells(schema@, options_model(rows@)) == Ok::<
                Seq<Option<CellModel>>,
                ValueErrorModel,
            >(cells_model(cells@)),
            Err(e) => leaf_cells(schema@, options_model(rows@)) == Err::<
                Seq<Option<CellModel>>,
                ValueErrorModel,
            >(e@),
        },
{
    let ghost om = options_model(rows@);
    let mut cells: Vec<Option<Cell>> = Vec::new();
    let n = rows.len();
    let mut i: usize = 0;
    assert(om.take(0) =~= Seq::<Option<ValueModel>>::empty());
    assert(cells_model(cells@) =~= Seq::<Option<CellModel>>::empty());
    while i < n
        invariant
            n == rows@.len(),
            om == options_model(rows@),
            i <= n,
            leaf_cells(schema@, om.take(i as int)) == Ok::<
                Seq<Option<CellModel>>,
                ValueErrorModel,
            >(cells_model(cells@)),
        decreases n - i,
    {
        assert(om.take(i + 1).drop_last() =~= om.take(i as int));
        assert(om.take(i + 1).last() == om[i as int]);
        let ghost before = cells@;
        match &rows[i] {
            None => {
                cells.push(None);
                assert(cells_model(cells@) =~= cells_model(before).push(None));
            },
            Some(value) => {
                assert(om[i as int] == Some(value@));
                if matches!(value, Value::Null) {
                    cells.push(None);
                    assert(cells_model(cells@) =~= cells_model(before).push(None));
                } else if fits_scalar(value, schema) {
                    let cell = to_cell(value);
                    cells.push(Some(cell));
                    assert(cells_model(cells@) =~= cells_model(before).push(Some(cell_model(value@))));
                } else {
                    proof {
                        lemma_leaf_cells_err(schema@, om, i + 1);
                    }
                    return Err(mismatch(value, schema));
                }
            },
        }
        i = i + 1;
    }
    assert(om.take(n as int) =~= om);
    Ok(cells)
}


/// The validity of a Struct column.
fn build_validity(schema: &SchemaSpec, rows: &Vec<Option<Value>>) -> (r: Result<
    Vec<bool>,
    ValueError,
>)
    ensures
        match r {
            Ok(validity) => struct_validity(schema@, options_model(rows@)) == Ok::<
                Seq<bool>,
                ValueErrorModel,
            >(validity@),
            Err(e) => struct_validity(schema@, options_model(rows@)) == Err::<
                Seq<bool>,
                ValueErrorModel,
            >(e@),
        },
{
    let ghost om = options_model(rows@);
    let mut validity: Vec<bool> = Vec::new();
    let n = rows.len();
    let mut i: usize = 0;
    assert(om.take(0) =~= Seq::<Option<ValueModel>>::empty());
    assert(validity@ =~= Seq::<bool>::empty());
    while i < n
        invariant
            n == rows@.len(),
            om == options_model(rows@),
            i <= n,
            struct_validity(schema@, om.take(i as int)) == Ok::<Seq<bool>, ValueErrorModel>(
                validity@,
            ),
        decreases n - i,
    {
        assert(om.take(i + 1).drop_last() =~= om.take(i as int));
        assert(om.take(i + 1).last() == om[i as int]);
        match &rows[i] {
            None => {
                validity.push(false);
            },
            Some(value) => {
                assert(om[i as int] == Some(value@));
                match value {
                    Value::Null => {
                        validity.push(false);
                    },
                    Value::Mapping(_) => {
                        validity.push(true);
                    },
                    _ => {
                        proof {
                            lemma_struct_validity_err(schema@, om, i + 1);
                        }
                        return Err(mismatch(value, schema));
                    },
                }
            },
        }
        i = i + 1;
    }
    assert(om.take(n as int) =~= om);
    Ok(validity)
}

/// The values of one field in each row.
fn field_rows(rows: &Vec<Option<Value>>, field: &SchemaField) -> (r: Vec<Option<Value>>)
    ensures
        options_model(r@) == child_rows(
            options_model(rows@),
            crate::schema::fm(field.name@, field.dtype@),
        ),
{
    let ghost f = crate::schema::fm(field.name@, field.dtype@);
    let mut out: Vec<Option<Value>> = Vec::new();
    let n = rows.len();
    let mut i: usize = 0;
    while i < n
        invariant
            n == rows@.len(),
            f == crate::schema::fm(field.name@, field.dtype@),
            i <= n,
            out@.len() == i,
            forall|j: int|
                0 <= j < i ==> #[trigger] options_model(out@)[j] == child_rows(
                    options_model(rows@),
                    f,
                )[j],
        decreases n - i,
    {
        let ghost before = out@;
        match &rows[i] {
            Some(Value::Mapping(entries)) => {
                let found = find_entry(entries, field.name.as_str());
                proof {
                    lemma_first_entry(
                        entries@,
                        field.name@,
                        match found {
                            Some(j) => Some(j as int),
                            None => None,
                        },
                    );
                    lemma_entries_model(entries@);
                }
                let value = match found {
                    Some(j) => entries[j].1.duplicate(),
                    None => default_value(&field.dtype),
                };
                assert(options_model(rows@)[i as int] == Some(
                    ValueModel::Mapping(entries_model(entries@)),
                ));
                assert(value@ == match first_entry(entries_model(entries@), field.name@) {
                    Some(k) => entries_model(entries@)[k].1,
                    None => default_model(field.dtype@),
                });
                assert(child_rows(options_model(rows@), f)[i as int] == Some(value@));
                out.push(Some(value));
                assert(options_model(out@)[i as int] == Some(value@));
            },
            _ => {
                assert(!(options_model(rows@)[i as int] matches Some(ValueModel::Mapping(_))));
                assert(child_rows(options_model(rows@), f)[i as int] == None::<ValueModel>);
                out.push(None);
                assert(options_model(out@)[i as int] == None::<ValueModel>);
            },
        }
        assert forall|j: int| 0 <= j < i + 1 implies #[trigger] options_model(out@)[j]
            == child_rows(options_model(rows@), f)[j] by {
            if j < i {
                assert(out@[j] == before[j]);
                assert(options_model(out@)[j] == options_model(before)[j]);
            } else {
                assert(options_model(out@)[j] == options_model(out@)[i as int]);
            }
        }
        i = i + 1;
    }
    assert(options_model(out@) =~= child_rows(options_model(rows@), f));
    out
}

/// The elements of a list, each as a present row.
fn item_rows(items: &Vec<Value>) -> (r: Vec<Option<Value>>)
    ensures
        options_model(r@) == items_model(items@).map_values(|x: ValueModel| Some(x)),
{
    proof {
        lemma_items_model(items@);
    }
    let mut out: Vec<Option<Value>> = Vec::new();
    let n = items.len();
    let mut i: usize = 0;
    while i < n
        invariant
            n == items@.len(),
            i <= n,
            out@.len() == i,
            items_model(items@).len() == n,
            forall|j: int| 0 <= j < n ==> #[trigger] items_model(items@)[j] == items@[j]@,
            forall|j: int| 0 <= j < i ==> (#[trigger] out@[j] matches Some(v) && v@ == items@[j]@),
        decreases n - i,
    {
        out.push(Some(items[i].duplicate()));
        i = i + 1;
    }
    assert(options_model(out@) =~= items_model(items@).map_values(|x: ValueModel| Some(x)));
    out
}

/// The column that holds some rows of values of a dtype.
#[verifier::loop_isolation(false)]
pub fn build_column(schema: &SchemaSpec, rows: &Vec<Option<Value>>) -> (r: Result<
    Column,
    ValueError,
>)
    ensures
        column_result(r) == build_model(schema@, options_model(rows@)),
    decreases schema,
{
    let ghost om = options_model(rows@);
    match schema {
        SchemaSpec::Struct { fields } => {
            let validity = match build_validity(schema, rows) {
                Ok(v) => v,
                Err(e) => {
                    return Err(e);
                },
            };
            let ghost fs = fields_model(fields@);
            proof {
                lemma_fields_model(fields@);
            }
            let mut children: Vec<NamedColumn> = Vec::new();
            let n = fields.len();
            let mut i: usize = 0;
            assert(fs.take(0) =~= Seq::<FieldModel>::empty());
            assert(named_model(children@) =~= Seq::<(Seq<char>, ColumnModel)>::empty());
            while i < n
                invariant
                    n == fields@.len(),
                    n == fs.len(),
                    i <= n,
                    build_fields(fs.take(i as int), om) == Ok::<
                        Seq<(Seq<char>, ColumnModel)>,
                        ValueErrorModel,
                    >(named_model(children@)),
                decreases n - i,
            {
                proof {
                    broadcast use vstd::std_specs::vec::axiom_vec_index_decreases;
                    assert(decreases_to!(fields => fields[i as int]));
                    assert(fs.take(i + 1).drop_last() =~= fs.take(i as int));
                    assert(fs.take(i + 1).last() == fs[i as int]);
                }
                let child = field_rows(rows, &fields[i]);
                let data = match build_column(&fields[i].dtype, &child) {
                    Ok(c) => c,
                    Err(e) => {
                        proof {
                            lemma_build_fields_err(fs, om, i + 1);
                        }
                        return Err(e);
                    },
                };
                let ghost before = children@;
                children.push(NamedColumn { name: fields[i].name.clone(), data });
                proof {
                    lemma_named_model(children@);
                    lemma_named_model(before);
                    assert(named_model(children@) =~= named_model(before).push(
                        (fields@[i as int].name@, data@),
                    ));
                }
                i = i + 1;
            }
            assert(fs.take(n as int) =~= fs);
            Ok(Column::Struct { validity, fields: children })
        },
        SchemaSpec::List { inner } => {
            let mut lists: Vec<Option<Column>> = Vec::new();
            let n = rows.len();
            let mut i: usize = 0;
            assert(om.take(0) =~= Seq::<Option<ValueModel>>::empty());
            assert(rows_model(lists@) =~= Seq::<Option<ColumnModel>>::empty());
            while i < n
                invariant
                    n == rows@.len(),
                    om == options_model(rows@),
                    i <= n,
                    list_rows(inner@, om.take(i as int)) == Ok::<
                        Seq<Option<ColumnModel>>,
                        ValueErrorModel,
                    >(rows_model(lists@)),
                decreases n - i,
            {
                assert(om.take(i + 1).drop_last() =~= om.take(i as int));
                assert(om.take(i + 1).last() == om[i as int]);
                let ghost before = lists@;
                match &rows[i] {
                    None => {
                        lists.push(None);
                    },
                    Some(value) => {
                        assert(om[i as int] == Some(value@));
                        match value {
                            Value::Null => {
                                lists.push(None);
                            },
                            Value::List(items) => {
                                let elements = item_rows(items);
                                let column = match build_column(inner, &elements) {
                                    Ok(c) => c,
                                    Err(e) => {
                                        proof {
                                            lemma_list_rows_err(inner@, om, i + 1);
                                        }
                                        return Err(e);
                                    },
                                };
                                lists.push(Some(column));
                            },
                            _ => {
                                proof {
                                    lemma_list_rows_err(inner@, om, i + 1);
                                }
                                return Err(mismatch(value, schema));
                            },
                        }
                    },
                }
                proof {
                    lemma_rows_model(lists@);
                    lemma_rows_model(before);
                    assert(rows_model(lists@) =~= rows_model(before).push(
                        rows_model(lists@).last(),
                    ));
                }
                i = i + 1;
            }
            assert(om.take(n as int) =~= om);
            Ok(Column::List { inner: inner.duplicate(), rows: lists })
        },
        _ => match build_leaf(schema, rows) {
            Ok(cells) => Ok(Column::Leaf { dtype: schema.duplicate(), cells }),
            Err(e) => Err(e),
        },
    }
}

/// The named column that holds some rows of values of a dtype. The column
/// is the data of a Polars series; Polars itself checks, when it makes a
/// Struct series of it, that no two fields of a Struct share a name.
pub fn values_to_series(name: String, schema: &SchemaSpec, values: Vec<Option<Value>>) -> (r:
    Result<NamedColumn, ValueError>)
    ensures
        match r {
            Ok(c) => c.name@ == name@ && build_model(schema@, options_model(values@)) == Ok::<
                ColumnModel,
                ValueErrorModel,
            >(c.data@),
            Err(e) => build_model(schema@, options_model(values@)) == Err::<
                ColumnModel,
                ValueErrorModel,
            >(e@),
        },
{
    match build_column(schema, &values) {
        Ok(data) => Ok(NamedColumn { name, data }),
        Err(e) => Err(e),
    }
}


impl Cell {
    /// A copy with the same model.
    pub fn duplicate(&self) -> (r: Cell)
        ensures
            r@ == self@,
    {
        match self {
            Cell::Bool(b) => Cell::Bool(*b),
            Cell::Unsigned(n) => Cell::Unsigned(*n),
            Cell::Signed(n) => Cell::Signed(*n),
            Cell::Single(b) => Cell::Single(*b),
            Cell::Double(b) => Cell::Double(*b),
            Cell::Text(s) => Cell::Text(s.clone()),
            Cell::Bytes(b) => {
                let copy = b.clone();
                assert(copy@ =~= b@);
                Cell::Bytes(copy)
            },
        }
    }
}

impl Column {
    /// A copy with the same model.
    #[verifier::loop_isolation(false)]
    pub fn duplicate(&self) -> (r: Column)
        ensures
            r@ == self@,
        decreases self,
    {
        match self {
            Column::Leaf { dtype, cells } => {
                let mut copies: Vec<Option<Cell>> = Vec::new();
                let n = cells.len();
                let mut i: usize = 0;
                while i < n
                    invariant
                        n == cells@.len(),
                        i <= n,
                        copies@.len() == i,
                        forall|j: int|
                            0 <= j < i ==> #[trigger] cells_model(copies@)[j] == cells_model(
                                cells@,
                            )[j],
                    decreases n - i,
                {
                    let ghost before = copies@;
                    match &cells[i] {
                        Some(c) => copies.push(Some(c.duplicate())),
                        None => copies.push(None),
                    }
                    assert forall|j: int| 0 <= j < i + 1 implies #[trigger] cells_model(copies@)[j]
                        == cells_model(cells@)[j] by {
                        if j < i {
                            assert(copies@[j] == before[j]);
                            assert(cells_model(copies@)[j] == cells_model(before)[j]);
                        }
                    }
                    i = i + 1;
                }
                assert(cells_model(copies@) =~= cells_model(cells@));
                Column::Leaf { dtype: dtype.duplicate(), cells: copies }
            },
            Column::Struct { validity, fields } => {
                let mut copies: Vec<NamedColumn> = Vec::new();
                let n = fields.len();
                let mut i: usize = 0;
                proof {
                    lemma_named_model(fields@);
                }
                while i < n
                    invariant
                        n == fields@.len(),
                        i <= n,
                        copies@.len() == i,
                        forall|j: int|
                            #![trigger copies@[j]]
                            0 <= j < i ==> (copies@[j].name@ == fields@[j].name@ && copies@[j].data@
                                == fields@[j].data@),
                    decreases n - i,
                {
                    proof {
                        broadcast use vstd::std_specs::vec::axiom_vec_index_decreases;
                        assert(decreases_to!(fields => fields[i as int]));
                    }
                    let data = fields[i].data.duplicate();
                    copies.push(NamedColumn { name: fields[i].name.clone(), data });
                    i = i + 1;
                }
                proof {
                    lemma_named_model(copies@);
                    assert(named_model(copies@) =~= named_model(fields@));
                }
                let v = validity.clone();
                assert(v@ =~= validity@);
                Column::Struct { validity: v, fields: copies }
            },
            Column::List { inner, rows } => {
                let mut copies: Vec<Option<Column>> = Vec::new();
                let n = rows.len();
                let mut i: usize = 0;
                proof {
                    lemma_rows_model(rows@);
                }
                while i < n
                    invariant
                        n == rows@.len(),
                        i <= n,
                        copies@.len() == i,
                        forall|j: int|
                            0 <= j < i ==> #[trigger] rows_model(copies@)[j] == rows_model(
                                rows@,
                            )[j],
                    decreases n - i,
                {
                    proof {
                        broadcast use vstd::std_specs::vec::axiom_vec_index_decreases;
                        assert(decreases_to!(rows => rows[i as int]));
                    }
                    let ghost before = copies@;
                    match &rows[i] {
                        Some(c) => {
                            proof {
                                assert(decreases_to!(rows[i as int] => c));
                            }
                            copies.push(Some(c.duplicate()));
                        },
                        None => copies.push(None),
                    }
                    proof {
                        lemma_rows_model(copies@);
                        lemma_rows_model(before);
                    }
                    assert forall|j: int| 0 <= j < i + 1 implies #[trigger] rows_model(copies@)[j]
                        == rows_model(rows@)[j] by {
                        if j < i {
                            assert(copies@[j] == before[j]);
                            assert(rows_model(before)[j] == rows_model(rows@)[j]);
                            assert(rows_model(copies@)[j] == rows_model(before)[j]);
                        } else {
                            assert(rows_model(copies@)[j] == rows_model(rows@)[j]);
                        }
                    }
                    i = i + 1;
                }
                proof {
                    lemma_rows_model(copies@);
                    lemma_rows_model(rows@);
                }
                assert(rows_model(copies@) =~= rows_model(rows@));
                Column::List { inner: inner.duplicate(), rows: copies }
            },
        }
    }
}


/// The number of rows of a column.
pub open spec fn column_len(c: ColumnModel) -> nat {
    match c {
        ColumnModel::Leaf(_, cells) => cells.len(),
        ColumnModel::Struct(validity, _) => validity.len(),
        ColumnModel::List(_, lists) => lists.len(),
    }
}

/// The models of optional row indexes.
pub open spec fn index_model(rows: Seq<Option<usize>>) -> Seq<Option<int>> {
    rows.map_values(
        |r: Option<usize>|
            match r {
                Some(k) => Some(k as int),
                None => None,
            },
    )
}

/// Every present row index is below `len`.
pub open spec fn indexes_below(rows: Seq<Option<usize>>, len: int) -> bool {
    forall|i: int| 0 <= i < rows.len() ==> (#[trigger] rows[i] matches Some(k) ==> k < len)
}

/// The entries of `col` picked by each row index; a missing index picks
/// nothing.
pub open spec fn gather<T>(col: Seq<Option<T>>, rows: Seq<Option<int>>) -> Seq<Option<T>> {
    rows.map_values(
        |r: Option<int>|
            match r {
                Some(k) => col[k],
                None => None,
            },
    )
}

/// The value each row takes from the deduplicated values by its index; a
/// row without an index takes nothing.
pub fn gather_scalars<T: Copy>(unique: &Vec<Option<T>>, rows: &Vec<Option<usize>>) -> (r: Vec<
    Option<T>,
>)
    requires
        indexes_below(rows@, unique@.len() as int),
    ensures
        r@ == gather(unique@, index_model(rows@)),
{
    let mut out: Vec<Option<T>> = Vec::new();
    let n = rows.len();
    let mut i: usize = 0;
    while i < n
        invariant
            n == rows@.len(),
            i <= n,
            indexes_below(rows@, unique@.len() as int),
            out@ =~= gather(unique@, index_model(rows@)).take(i as int),
        decreases n - i,
    {
        let value = match rows[i] {
            Some(k) => unique[k],
            None => None,
        };
        out.push(value);
        i = i + 1;
    }
    out
}

/// A leaf or List column with its rows picked by the row indexes.
pub open spec fn take_model(c: ColumnModel, rows: Seq<Option<int>>) -> ColumnModel {
    match c {
        ColumnModel::Leaf(d, cells) => ColumnModel::Leaf(d, gather(cells, rows)),
        ColumnModel::List(d, lists) => ColumnModel::List(d, gather(lists, rows)),
        ColumnModel::Struct(validity, children) => ColumnModel::Struct(validity, children),
    }
}

/// Picks the rows of a leaf or List column by index.
pub fn take_column(c: &Column, rows: &Vec<Option<usize>>) -> (r: Column)
    requires
        !(c@ is Struct),
        indexes_below(rows@, column_len(c@) as int),
    ensures
        r@ == take_model(c@, index_model(rows@)),
{
    match c {
        Column::Leaf { dtype, cells } => {
            let mut picked: Vec<Option<Cell>> = Vec::new();
            let n = rows.len();
            let mut i: usize = 0;
            while i < n
                invariant
                    n == rows@.len(),
                    indexes_below(rows@, cells@.len() as int),
                    i <= n,
                    picked@.len() == i,
                    forall|j: int|
                        0 <= j < i ==> #[trigger] cells_model(picked@)[j] == gather(
                            cells_model(cells@),
                            index_model(rows@),
                        )[j],
                decreases n - i,
            {
                let ghost before = picked@;
                match rows[i] {
                    Some(k) => match &cells[k] {
                        Some(cell) => picked.push(Some(cell.duplicate())),
                        None => picked.push(None),
                    },
                    None => picked.push(None),
                }
                assert forall|j: int| 0 <= j < i + 1 implies #[trigger] cells_model(picked@)[j]
                    == gather(cells_model(cells@), index_model(rows@))[j] by {
                    if j < i {
                        assert(picked@[j] == before[j]);
                        assert(cells_model(picked@)[j] == cells_model(before)[j]);
                    }
                }
                i = i + 1;
            }
            assert(cells_model(picked@) =~= gather(cells_model(cells@), index_model(rows@)));
            Column::Leaf { dtype: dtype.duplicate(), cells: picked }
        },
        Column::List { inner, rows: lists } => {
            proof {
                lemma_rows_model(lists@);
            }
            let mut picked: Vec<Option<Column>> = Vec::new();
            let n = rows.len();
            let mut i: usize = 0;
            while i < n
                invariant
                    n == rows@.len(),
                    indexes_below(rows@, lists@.len() as int),
                    rows_model(lists@).len() == lists@.len(),
                    forall|j: int|
                        0 <= j < lists@.len() ==> #[trigger] rows_model(lists@)[j] == match lists@[j] {
                            Some(c) => Some(c@),
                            None => None::<ColumnModel>,
                        },
                    i <= n,
                    picked@.len() == i,
                    forall|j: int|
                        0 <= j < i ==> #[trigger] rows_model(picked@)[j] == gather(
                            rows_model(lists@),
                            index_model(rows@),
                        )[j],
                decreases n - i,
            {
                let ghost before = picked@;
                match rows[i] {
                    Some(k) => match &lists[k] {
                        Some(column) => picked.push(Some(column.duplicate())),
                        None => picked.push(None),
                    },
                    None => picked.push(None),
                }
                proof {
                    lemma_rows_model(picked@);
                    lemma_rows_model(before);
                }
                assert forall|j: int| 0 <= j < i + 1 implies #[trigger] rows_model(picked@)[j]
                    == gather(rows_model(lists@), index_model(rows@))[j] by {
                    if j < i {
                        assert(picked@[j] == before[j]);
                        assert(rows_model(picked@)[j] == rows_model(before)[j]);
                    }
                }
                i = i + 1;
            }
            proof {
                lemma_rows_model(picked@);
            }
            assert(rows_model(picked@) =~= gather(rows_model(lists@), index_model(rows@)));
            Column::List { inner: inner.duplicate(), rows: picked }
        },
        Column::Struct { .. } => {
            assert(false);
            c.duplicate()
        },
    }
}


/// Leaf cells come one per row.
pub proof fn lemma_leaf_cells_len(d: Dtype, rows: Seq<Option<ValueModel>>)
    ensures
        leaf_cells(d, rows) matches Ok(cells) ==> cells.len() == rows.len(),
    decreases rows.len(),
{
    if rows.len() > 0 {
        lemma_leaf_cells_len(d, rows.drop_last());
    }
}

/// A Struct validity has one entry per row.
pub proof fn lemma_struct_validity_len(d: Dtype, rows: Seq<Option<ValueModel>>)
    ensures
        struct_validity(d, rows) matches Ok(v) ==> v.len() == rows.len(),
    decreases rows.len(),
{
    if rows.len() > 0 {
        lemma_struct_validity_len(d, rows.drop_last());
    }
}

/// List rows come one per row.
pub proof fn lemma_list_rows_len(inner: Dtype, rows: Seq<Option<ValueModel>>)
    ensures
        list_rows(inner, rows) matches Ok(ls) ==> ls.len() == rows.len(),
    decreases rows.len(),
{
    if rows.len() > 0 {
        lemma_list_rows_len(inner, rows.drop_last());
    }
}

/// A built column has one row per input row.
pub proof fn lemma_build_len(d: Dtype, rows: Seq<Option<ValueModel>>)
    ensures
        build_model(d, rows) matches Ok(c) ==> column_len(c) == rows.len(),
{
    match d {
        Dtype::Struct(_) => lemma_struct_validity_len(d, rows),
        Dtype::List(inner) => lemma_list_rows_len(*inner, rows),
        _ => lemma_leaf_cells_len(d, rows),
    }
}

/// The value of a named field of a map, if the value is a map that has one.
pub open spec fn field_of(v: ValueModel, name: Seq<char>) -> Option<ValueModel> {
    match v {
        ValueModel::Mapping(es) => match first_entry(es, name) {
            Some(i) => Some(es[i].1),
            None => None,
        },
        _ => None,
    }
}

/// The values at one field of some records.
pub open spec fn sub_records(records: Seq<Option<ValueModel>>, name: Seq<char>) -> Seq<
    Option<ValueModel>,
> {
    records.map_values(
        |r: Option<ValueModel>|
            match r {
                Some(v) => field_of(v, name),
                None => None,
            },
    )
}

/// The leaf values of records: nothing where the record itself is absent,
/// otherwise the value reached or, when the path is missing, the default.
pub open spec fn leaf_values(d: Dtype, present: Seq<bool>, records: Seq<Option<ValueModel>>) -> Seq<
    Option<ValueModel>,
> {
    Seq::new(
        records.len(),
        |k: int|
            if present[k] {
                Some(
                    match records[k] {
                        Some(v) => v,
                        None => default_model(d),
                    },
                )
            } else {
                None
            },
    )
}

/// The column of a dtype laid out from deduplicated records: a Struct is
/// assembled from its fields under the given validity, any other dtype is
/// built once over the records and then picked by the row indexes.
pub open spec fn layout_model(
    d: Dtype,
    present: Seq<bool>,
    records: Seq<Option<ValueModel>>,
    rows: Seq<Option<int>>,
    validity: Seq<bool>,
) -> Result<ColumnModel, ValueErrorModel>
    decreases d, 0nat,
{
    match d {
        Dtype::Struct(fields) => match layout_fields(fields, present, records, rows, validity) {
            Ok(children) => Ok(ColumnModel::Struct(validity, children)),
            Err(e) => Err(e),
        },
        _ => match build_model(d, leaf_values(d, present, records)) {
            Ok(c) => Ok(take_model(c, rows)),
            Err(e) => Err(e),
        },
    }
}

/// The laid-out child columns of a Struct, in field order.
pub open spec fn layout_fields(
    fields: Seq<FieldModel>,
    present: Seq<bool>,
    records: Seq<Option<ValueModel>>,
    rows: Seq<Option<int>>,
    validity: Seq<bool>,
) -> Result<Seq<(Seq<char>, ColumnModel)>, ValueErrorModel>
    decreases fields, 0nat,
{
    if fields.len() == 0 {
        Ok(Seq::empty())
    } else {
        proof {
            assert(decreases_to!(fields => fields.drop_last()));
            assert(decreases_to!(fields => fields[fields.len() - 1]));
        }
        match layout_fields(fields.drop_last(), present, records, rows, validity) {
            Err(e) => Err(e),
            Ok(prefix) => match layout_model(
                fields.last().dtype,
                present,
                sub_records(records, fields.last().name),
                rows,
                validity,
            ) {
                Ok(c) => Ok(prefix.push((fields.last().name, c))),
                Err(e) => Err(e),
            },
        }
    }
}

/// Once a prefix of the fields fails to lay out, all fields fail the same way.
pub proof fn lemma_layout_fields_err(
    fields: Seq<FieldModel>,
    present: Seq<bool>,
    records: Seq<Option<ValueModel>>,
    rows: Seq<Option<int>>,
    validity: Seq<bool>,
    k: int,
)
    requires
        0 <= k <= fields.len(),
        layout_fields(fields.take(k), present, records, rows, validity) is Err,
    ensures
        layout_fields(fields, present, records, rows, validity) == layout_fields(
            fields.take(k),
            present,
            records,
            rows,
            validity,
        ),
    decreases fields.len(),
{
    if fields.len() > k {
        assert(fields.drop_last().take(k) =~= fields.take(k));
        lemma_layout_fields_err(fields.drop_last(), present, records, rows, validity, k);
    } else {
        assert(fields.take(k) =~= fields);
    }
}

/// The values at one field of some records.
fn field_values(records: &Vec<Option<Value>>, name: &str) -> (r: Vec<Option<Value>>)
    ensures
        options_model(r@) == sub_records(options_model(records@), name@),
{
    let mut out: Vec<Option<Value>> = Vec::new();
    let n = records.len();
    let mut i: usize = 0;
    while i < n
        invariant
            n == records@.len(),
            i <= n,
            out@.len() == i,
            forall|j: int|
                0 <= j < i ==> #[trigger] options_model(out@)[j] == sub_records(
                    options_model(records@),
                    name@,
                )[j],
        decreases n - i,
    {
        let ghost before = out@;
        match &records[i] {
            Some(Value::Mapping(entries)) => {
                let found = find_entry(entries, name);
                proof {
                    lemma_first_entry(
                        entries@,
                        name@,
                        match found {
                            Some(j) => Some(j as int),
                            None => None,
                        },
                    );
                    lemma_entries_model(entries@);
                }
                assert(options_model(records@)[i as int] == Some(
                    ValueModel::Mapping(entries_model(entries@)),
                ));
                match found {
                    Some(j) => {
                        let v = entries[j].1.duplicate();
                        out.push(Some(v));
                    },
                    None => {
                        out.push(None);
                    },
                }
            },
            _ => {
                assert(!(options_model(records@)[i as int] matches Some(ValueModel::Mapping(_))));
                out.push(None);
            },
        }
        assert forall|j: int| 0 <= j < i + 1 implies #[trigger] options_model(out@)[j]
            == sub_records(options_model(records@), name@)[j] by {
            if j < i {
                assert(out@[j] == before[j]);
                assert(options_model(out@)[j] == options_model(before)[j]);
            } else {
                assert(options_model(out@)[j] == options_model(out@)[i as int]);
            }
        }
        i = i + 1;
    }
    assert(options_model(out@) =~= sub_records(options_model(records@), name@));
    out
}

/// The leaf values of records for a dtype.
fn leaf_rows(schema: &SchemaSpec, present: &Vec<bool>, records: &Vec<Option<Value>>) -> (r: Vec<
    Option<Value>,
>)
    requires
        present@.len() == records@.len(),
    ensures
        options_model(r@) == leaf_values(schema@, present@, options_model(records@)),
{
    let mut out: Vec<Option<Value>> = Vec::new();
    let n = records.len();
    let mut i: usize = 0;
    while i < n
        invariant
            n == records@.len(),
            n == present@.len(),
            i <= n,
            out@.len() == i,
            forall|j: int|
                0 <= j < i ==> #[trigger] options_model(out@)[j] == leaf_values(
                    schema@,
                    present@,
                    options_model(records@),
                )[j],
        decreases n - i,
    {
        let ghost before = out@;
        if present[i] {
            match &records[i] {
                Some(v) => {
                    out.push(Some(v.duplicate()));
                },
                None => {
                    out.push(Some(default_value(schema)));
                },
            }
        } else {
            out.push(None);
        }
        assert forall|j: int| 0 <= j < i + 1 implies #[trigger] options_model(out@)[j]
            == leaf_values(schema@, present@, options_model(records@))[j] by {
            if j < i {
                assert(out@[j] == before[j]);
                assert(options_model(out@)[j] == options_model(before)[j]);
            } else {
                assert(options_model(out@)[j] == options_model(out@)[i as int]);
            }
        }
        i = i + 1;
    }
    assert(options_model(out@) =~= leaf_values(schema@, present@, options_model(records@)));
    out
}

/// Lays out the column of a dtype from deduplicated records.
#[verifier::loop_isolation(false)]
pub fn layout_column(
    schema: &SchemaSpec,
    present: &Vec<bool>,
    records: &Vec<Option<Value>>,
    rows: &Vec<Option<usize>>,
    validity: &Vec<bool>,
) -> (r: Result<Column, ValueError>)
    requires
        present@.len() == records@.len(),
        indexes_below(rows@, records@.len() as int),
    ensures
        column_result(r) == layout_model(
            schema@,
            present@,
            options_model(records@),
            index_model(rows@),
            validity@,
        ),
    decreases schema,
{
    match schema {
        SchemaSpec::Struct { fields } => {
            let ghost fs = fields_model(fields@);
            proof {
                lemma_fields_model(fields@);
            }
            let mut children: Vec<NamedColumn> = Vec::new();
            let n = fields.len();
            let mut i: usize = 0;
            assert(fs.take(0) =~= Seq::<FieldModel>::empty());
            assert(named_model(children@) =~= Seq::<(Seq<char>, ColumnModel)>::empty());
            while i < n
                invariant
                    n == fields@.len(),
                    n == fs.len(),
                    i <= n,
                    layout_fields(
                        fs.take(i as int),
                        present@,
                        options_model(records@),
                        index_model(rows@),
                        validity@,
                    ) == Ok::<Seq<(Seq<char>, ColumnModel)>, ValueErrorModel>(
                        named_model(children@),
                    ),
                decreases n - i,
            {
                proof {
                    broadcast use vstd::std_specs::vec::axiom_vec_index_decreases;
                    assert(decreases_to!(fields => fields[i as int]));
                    assert(fs.take(i + 1).drop_last() =~= fs.take(i as int));
                    assert(fs.take(i + 1).last() == fs[i as int]);
                }
                let sub = field_values(records, fields[i].name.as_str());
                assert(options_model(sub@).len() == sub@.len());
                assert(options_model(records@).len() == records@.len());
                let data = match layout_column(&fields[i].dtype, present, &sub, rows, validity) {
                    Ok(c) => c,
                    Err(e) => {
                        proof {
                            lemma_layout_fields_err(
                                fs,
                                present@,
                                options_model(records@),
                                index_model(rows@),
                                validity@,
                                i + 1,
                            );
                        }
                        return Err(e);
                    },
                };
                let ghost before = children@;
                children.push(NamedColumn { name: fields[i].name.clone(), data });
                proof {
                    lemma_named_model(children@);
                    lemma_named_model(before);
                    assert(named_model(children@) =~= named_model(before).push(
                        (fields@[i as int].name@, data@),
                    ));
                }
                i = i + 1;
            }
            assert(fs.take(n as int) =~= fs);
            let v = validity.clone();
            assert(v@ =~= validity@);
            Ok(Column::Struct { validity: v, fields: children })
        },
        _ => {
            let values = leaf_rows(schema, present, records);
            match build_column(schema, &values) {
                Ok(column) => {
                    proof {
                        lemma_build_len(schema@, options_model(values@));
                    }
                    Ok(take_column(&column, rows))
                },
                Err(e) => Err(e),
            }
        },
    }
}

/// Whether each deduplicated record is present.
pub open spec fn presence(records: Seq<Option<ValueModel>>) -> Seq<bool> {
    records.map_values(|r: Option<ValueModel>| r is Some)
}

/// Whether each row picks a present record.
pub open spec fn row_validity(records: Seq<Option<ValueModel>>, rows: Seq<Option<int>>) -> Seq<bool> {
    rows.map_values(
        |r: Option<int>|
            match r {
                Some(k) => records[k] is Some,
                None => false,
            },
    )
}

/// The column for rows that index deduplicated records (`None` where a row
/// has no record): leaves are built once per distinct record and then picked
/// for each row, and Structs are reassembled under the row validity.
pub fn decoded_values_to_series(
    name: String,
    unique_values: &Vec<Option<Value>>,
    rows: &Vec<Option<usize>>,
    dtype: &SchemaSpec,
) -> (r: Result<NamedColumn, ValueError>)
    requires
        indexes_below(rows@, unique_values@.len() as int),
    ensures
        match r {
            Ok(c) => c.name@ == name@ && layout_model(
                dtype@,
                presence(options_model(unique_values@)),
                options_model(unique_values@),
                index_model(rows@),
                row_validity(options_model(unique_values@), index_model(rows@)),
            ) == Ok::<ColumnModel, ValueErrorModel>(c.data@),
            Err(e) => layout_model(
                dtype@,
                presence(options_model(unique_values@)),
                options_model(unique_values@),
                index_model(rows@),
                row_validity(options_model(unique_values@), index_model(rows@)),
            ) == Err::<ColumnModel, ValueErrorModel>(e@),
        },
{
    let ghost um = options_model(unique_values@);
    let mut present: Vec<bool> = Vec::new();
    let m = unique_values.len();
    let mut k: usize = 0;
    while k < m
        invariant
            m == unique_values@.len(),
            um == options_model(unique_values@),
            k <= m,
            present@ =~= presence(um).take(k as int),
        decreases m - k,
    {
        present.push(unique_values[k].is_some());
        k = k + 1;
    }
    assert(present@ =~= presence(um));
    let mut validity: Vec<bool> = Vec::new();
    let n = rows.len();
    let mut i: usize = 0;
    while i < n
        invariant
            n == rows@.len(),
            m == unique_values@.len(),
            um == options_model(unique_values@),
            indexes_below(rows@, m as int),
            i <= n,
            validity@ =~= row_validity(um, index_model(rows@)).take(i as int),
        decreases n - i,
    {
        let valid = match rows[i] {
            Some(k) => unique_values[k].is_some(),
            None => false,
        };
        validity.push(valid);
        i = i + 1;
    }
    assert(validity@ =~= row_validity(um, index_model(rows@)));
    match layout_column(dtype, &present, unique_values, rows, &validity) {
        Ok(data) => Ok(NamedColumn { name, data }),
        Err(e) => Err(e),
    }
}

} // verus!
