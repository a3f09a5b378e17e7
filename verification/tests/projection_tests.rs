use maxminddb_polars::column::{Cell, Column, NamedColumn};
use maxminddb_polars::projection::{
    assemble_projection_series, decoded_leaves_to_series, flatten_projection,
};
use maxminddb_polars::column::decoded_values_to_series;
use maxminddb_polars::value::{value_at_path, Value};
use maxminddb_polars::schema::{city_schema, SchemaField, SchemaSpec};

fn field(name: &str, dtype: SchemaSpec) -> SchemaField {
    SchemaField { name: name.to_owned(), dtype }
}

fn record_schema() -> SchemaSpec {
    SchemaSpec::Struct {
        fields: vec![
            field("code", SchemaSpec::String),
            field(
                "names",
                SchemaSpec::Struct {
                    fields: vec![field("en", SchemaSpec::String), field("de", SchemaSpec::String)],
                },
            ),
            field("ids", SchemaSpec::List { inner: Box::new(SchemaSpec::UInt32) }),
        ],
    }
}

fn leaf(n: u128) -> Column {
    Column::Leaf { dtype: SchemaSpec::UInt8, cells: vec![Some(Cell::Unsigned(n))] }
}

#[test]
fn flattening_lists_leaves_depth_first_with_their_paths() {
    let leaves = flatten_projection(&record_schema());
    let paths: Vec<Vec<String>> = leaves.iter().map(|l| l.path.clone()).collect();
    assert_eq!(
        paths,
        vec![
            vec!["code".to_owned()],
            vec!["names".to_owned(), "en".to_owned()],
            vec!["names".to_owned(), "de".to_owned()],
            vec!["ids".to_owned()],
        ]
    );
    assert_eq!(leaves[3].dtype, SchemaSpec::List { inner: Box::new(SchemaSpec::UInt32) });
}

#[test]
fn a_scalar_dtype_is_its_own_leaf() {
    let leaves = flatten_projection(&SchemaSpec::Int64);
    assert_eq!(leaves.len(), 1);
    assert!(leaves[0].path.is_empty());
    assert_eq!(leaves[0].dtype, SchemaSpec::Int64);
    assert_eq!(flatten_projection(&city_schema()).len() > 20, true);
}

#[test]
fn assembling_puts_leaves_back_under_their_structs() {
    let validity = vec![true];
    let column = assemble_projection_series(
        "rec".to_owned(),
        &record_schema(),
        &validity,
        &vec![leaf(1), leaf(2), leaf(3), leaf(4)],
    );
    assert_eq!(
        column,
        NamedColumn {
            name: "rec".to_owned(),
            data: Column::Struct {
                validity: vec![true],
                fields: vec![
                    NamedColumn { name: "code".to_owned(), data: leaf(1) },
                    NamedColumn {
                        name: "names".to_owned(),
                        data: Column::Struct {
                            validity: vec![true],
                            fields: vec![
                                NamedColumn { name: "en".to_owned(), data: leaf(2) },
                                NamedColumn { name: "de".to_owned(), data: leaf(3) },
                            ],
                        },
                    },
                    NamedColumn { name: "ids".to_owned(), data: leaf(4) },
                ],
            },
        }
    );
}

#[test]
fn decoded_leaves_fill_defaults_and_follow_the_rows() {
    let dtype = SchemaSpec::Struct {
        fields: vec![
            field("code", SchemaSpec::String),
            field("ids", SchemaSpec::List { inner: Box::new(SchemaSpec::UInt8) }),
        ],
    };
    let decoded = vec![
        vec![Some(Value::String("SE".to_owned())), None],
        vec![None, Some(Value::List(vec![Value::UInt8(7)]))],
    ];
    let rows = vec![Some(1), None, Some(0)];
    let column = decoded_leaves_to_series("rec".to_owned(), &dtype, decoded, 2, &rows).unwrap();
    let text = |s: &str| Some(Cell::Text(s.to_owned()));
    let ids = |cells: Vec<Option<Cell>>| Some(Column::Leaf { dtype: SchemaSpec::UInt8, cells });
    assert_eq!(
        column,
        NamedColumn {
            name: "rec".to_owned(),
            data: Column::Struct {
                validity: vec![true, false, true],
                fields: vec![
                    NamedColumn {
                        name: "code".to_owned(),
                        data: Column::Leaf { dtype: SchemaSpec::String, cells: vec![None, None, text("SE")] },
                    },
                    NamedColumn {
                        name: "ids".to_owned(),
                        data: Column::List {
                            inner: SchemaSpec::UInt8,
                            rows: vec![ids(vec![Some(Cell::Unsigned(7))]), None, ids(vec![])],
                        },
                    },
                ],
            },
        }
    );
}

#[test]
fn a_decoded_leaf_of_the_wrong_kind_fails() {
    let decoded = vec![vec![Some(Value::Boolean(true))]];
    let error = decoded_leaves_to_series("x".to_owned(), &SchemaSpec::String, decoded, 1, &vec![Some(0)])
        .unwrap_err();
    assert_eq!(error.message(), "MMDB value of type bool does not match requested dtype str");
}

#[test]
fn leaf_by_leaf_decoding_matches_whole_record_layout() {
    let dtype = SchemaSpec::Struct {
        fields: vec![
            field("code", SchemaSpec::String),
            field("names", SchemaSpec::Struct { fields: vec![field("en", SchemaSpec::String)] }),
            field("ids", SchemaSpec::List { inner: Box::new(SchemaSpec::UInt32) }),
        ],
    };
    let entry = |name: &str, value: Value| (name.to_owned(), value);
    let records = vec![
        Value::Mapping(vec![
            entry("code", Value::String("SE".to_owned())),
            entry("names", Value::Mapping(vec![entry("en", Value::String("Sweden".to_owned()))])),
            entry("ids", Value::List(vec![Value::UInt32(1)])),
        ]),
        Value::Mapping(vec![entry("code", Value::String("US".to_owned()))]),
    ];
    let rows = vec![Some(1), None, Some(0), Some(1)];
    let decoded: Vec<Vec<Option<Value>>> = flatten_projection(&dtype)
        .iter()
        .map(|leaf| records.iter().map(|r| value_at_path(r, &leaf.path).cloned()).collect())
        .collect();
    let by_leaf = decoded_leaves_to_series("r".to_owned(), &dtype, decoded, records.len(), &rows).unwrap();
    let whole: Vec<Option<Value>> = records.iter().cloned().map(Some).collect();
    let by_record = decoded_values_to_series("r".to_owned(), &whole, &rows, &dtype).unwrap();
    assert_eq!(by_leaf, by_record);
}
