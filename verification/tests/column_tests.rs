use maxminddb_polars::column::{
    decoded_values_to_series, gather_scalars, take_column, to_cell, values_to_series, Cell, Column, NamedColumn,
};
use maxminddb_polars::schema::{SchemaField, SchemaSpec};
use maxminddb_polars::value::{Value, ValueError};

fn field(name: &str, dtype: SchemaSpec) -> SchemaField {
    SchemaField { name: name.to_owned(), dtype }
}

fn entry(name: &str, value: Value) -> (String, Value) {
    (name.to_owned(), value)
}

fn text(s: &str) -> Value {
    Value::String(s.to_owned())
}

fn null_count(column: &NamedColumn) -> usize {
    match &column.data {
        Column::Struct { validity, .. } => validity.iter().filter(|valid| !**valid).count(),
        Column::Leaf { cells, .. } => cells.iter().filter(|cell| cell.is_none()).count(),
        Column::List { rows, .. } => rows.iter().filter(|row| row.is_none()).count(),
    }
}

fn child<'a>(column: &'a Column, name: &str) -> &'a Column {
    match column {
        Column::Struct { fields, .. } => {
            &fields.iter().find(|field| field.name == name).unwrap().data
        }
        _ => panic!("not a struct column"),
    }
}

#[test]
fn builds_nested_series_without_json_or_python_values() {
    let schema = SchemaSpec::Struct { fields: vec![field("name", SchemaSpec::String)] };
    let values = vec![Some(Value::Mapping(vec![entry("name", text("example"))])), None];
    let series = values_to_series("record".into(), &schema, values).unwrap();
    assert_eq!(null_count(&series), 1);
    match child(&series.data, "name") {
        Column::Leaf { cells, .. } => {
            assert_eq!(cells[0], Some(Cell::Text("example".to_owned())));
        }
        _ => panic!("expected a leaf column"),
    }
}

#[test]
fn leaf_columns_widen_integers_and_keep_nulls() {
    let values = vec![Some(Value::UInt8(3)), None, Some(Value::Null), Some(Value::UInt64(9))];
    let column = values_to_series("n".into(), &SchemaSpec::UInt64, values).unwrap();
    assert_eq!(column.name, "n");
    assert_eq!(
        column.data,
        Column::Leaf {
            dtype: SchemaSpec::UInt64,
            cells: vec![Some(Cell::Unsigned(3)), None, None, Some(Cell::Unsigned(9))],
        }
    );
}

#[test]
fn a_value_that_does_not_fit_fails_the_column() {
    let values = vec![Some(Value::Int32(1)), Some(Value::Int32(-1))];
    let error = values_to_series("n".into(), &SchemaSpec::UInt8, values).unwrap_err();
    assert_eq!(error, ValueError::Mismatch { kind: "int32".to_owned(), dtype: SchemaSpec::UInt8 });
}

#[test]
fn list_columns_hold_one_column_per_row() {
    let schema = SchemaSpec::List { inner: Box::new(SchemaSpec::String) };
    let values = vec![Some(Value::List(vec![text("a"), text("b")])), None];
    let column = values_to_series("l".into(), &schema, values).unwrap();
    assert_eq!(
        column.data,
        Column::List {
            inner: SchemaSpec::String,
            rows: vec![
                Some(Column::Leaf {
                    dtype: SchemaSpec::String,
                    cells: vec![
                        Some(Cell::Text("a".to_owned())),
                        Some(Cell::Text("b".to_owned())),
                    ],
                }),
                None,
            ],
        }
    );
}

#[test]
fn cells_keep_each_scalar() {
    assert_eq!(to_cell(&Value::Boolean(true)), Cell::Bool(true));
    assert_eq!(to_cell(&Value::Int16(-5)), Cell::Signed(-5));
    assert_eq!(to_cell(&Value::UInt128(u128::MAX)), Cell::Unsigned(u128::MAX));
    assert_eq!(to_cell(&Value::Float64(2.5f64.to_bits())), Cell::Double(2.5f64.to_bits()));
    assert_eq!(to_cell(&Value::Float32(2.5f32.to_bits())), Cell::Single(2.5f32.to_bits()));
    assert_eq!(to_cell(&Value::Binary(vec![0, 255])), Cell::Bytes(vec![0, 255]));
}

#[test]
fn taking_rows_picks_cells_by_index() {
    let column = Column::Leaf {
        dtype: SchemaSpec::UInt8,
        cells: vec![Some(Cell::Unsigned(10)), None, Some(Cell::Unsigned(30))],
    };
    let taken = take_column(&column, &vec![Some(2), None, Some(0), Some(2), Some(1)]);
    assert_eq!(
        taken,
        Column::Leaf {
            dtype: SchemaSpec::UInt8,
            cells: vec![
                Some(Cell::Unsigned(30)),
                None,
                Some(Cell::Unsigned(10)),
                Some(Cell::Unsigned(30)),
                None,
            ],
        }
    );
}

#[test]
fn deduplicated_layout_matches_the_rows() {
    let schema = SchemaSpec::Struct {
        fields: vec![
            field("code", SchemaSpec::String),
            field("ids", SchemaSpec::List { inner: Box::new(SchemaSpec::UInt32) }),
        ],
    };
    let first = Value::Mapping(vec![
        entry("code", text("SE")),
        entry("ids", Value::List(vec![Value::UInt32(1), Value::UInt32(2)])),
    ]);
    let second = Value::Mapping(vec![entry("code", text("US"))]);
    let unique = vec![Some(first.duplicate()), Some(second.duplicate())];
    let rows = vec![Some(0), Some(1), None, Some(0)];
    let laid_out = decoded_values_to_series("r".into(), &unique, &rows, &schema).unwrap();

    let per_row = vec![Some(first.duplicate()), Some(second.duplicate()), None, Some(first)];
    let direct = values_to_series("r".into(), &schema, per_row).unwrap();

    assert_eq!(null_count(&laid_out), 1);
    assert_eq!(child(&laid_out.data, "code"), child(&direct.data, "code"));
    assert_eq!(child(&laid_out.data, "ids"), child(&direct.data, "ids"));
    match (&laid_out.data, &direct.data) {
        (Column::Struct { validity: a, .. }, Column::Struct { validity: b, .. }) => {
            assert_eq!(a, b);
            assert_eq!(a, &vec![true, true, false, true]);
        }
        _ => panic!("expected struct columns"),
    }
}

#[test]
fn deduplicated_scalar_layout_repeats_each_record() {
    let unique = vec![Some(text("a")), Some(text("b"))];
    let rows = vec![Some(1), Some(1), None, Some(0)];
    let column = decoded_values_to_series("s".into(), &unique, &rows, &SchemaSpec::String).unwrap();
    assert_eq!(
        column.data,
        Column::Leaf {
            dtype: SchemaSpec::String,
            cells: vec![
                Some(Cell::Text("b".to_owned())),
                Some(Cell::Text("b".to_owned())),
                None,
                Some(Cell::Text("a".to_owned())),
            ],
        }
    );
}

#[test]
fn deduplicated_layout_reports_a_bad_record() {
    let unique = vec![Some(Value::Boolean(true))];
    let rows = vec![Some(0)];
    let error = decoded_values_to_series("s".into(), &unique, &rows, &SchemaSpec::String).unwrap_err();
    assert_eq!(error.message(), "MMDB value of type bool does not match requested dtype str");
}

#[test]
fn scalar_rows_take_their_deduplicated_value() {
    let unique = vec![Some("SE"), None, Some("US")];
    let rows = vec![Some(2), None, Some(0), Some(1), Some(2)];
    assert_eq!(
        gather_scalars(&unique, &rows),
        vec![Some("US"), None, Some("SE"), None, Some("US")]
    );
    assert_eq!(gather_scalars::<u8>(&vec![], &vec![None, None]), vec![None, None]);
}
