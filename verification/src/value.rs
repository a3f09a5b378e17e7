use vstd::prelude::*;
use vstd::string::*;

use crate::schema::{fields_model, lemma_fields_model, Dtype, FieldModel, SchemaField, SchemaSpec, type_text};

verus! {

/// A decoded MaxMind DB value. Floating-point numbers are carried as their
/// IEEE 754 bit patterns: the library only ever checks which kind they are.
#[derive(Debug, PartialEq)]
pub enum Value {
    Null,
    Boolean(bool),
    UInt8(u8),
    UInt16(u16),
    UInt32(u32),
    UInt64(u64),
    UInt128(u128),
    Int8(i8),
    Int16(i16),
    Int32(i32),
    Int64(i64),
    Int128(i128),
    Float32(u32),
    Float64(u64),
    String(String),
    Binary(Vec<u8>),
    List(Vec<Value>),
    Mapping(Vec<(String, Value)>),
}

/// Mathematical model of a decoded value.
pub enum ValueModel {
    Null,
    Boolean(bool),
    UInt8(u8),
    UInt16(u16),
    UInt32(u32),
    UInt64(u64),
    UInt128(u128),
    Int8(i8),
    Int16(i16),
    Int32(i32),
    Int64(i64),
    Int128(i128),
    Float32(u32),
    Float64(u64),
    String(Seq<char>),
    Binary(Seq<u8>),
    List(Seq<ValueModel>),
    Mapping(Seq<(Seq<char>, ValueModel)>),
}

impl Value {
    /// The mathematical model of this value.
    pub open spec fn model(&self) -> ValueModel
        decreases self,
    {
        match self {
            Value::Null => ValueModel::Null,
            Value::Boolean(b) => ValueModel::Boolean(*b),
            Value::UInt8(x) => ValueModel::UInt8(*x),
            Value::UInt16(x) => ValueModel::UInt16(*x),
            Value::UInt32(x) => ValueModel::UInt32(*x),
            Value::UInt64(x) => ValueModel::UInt64(*x),
            Value::UInt128(x) => ValueModel::UInt128(*x),
            Value::Int8(x) => ValueModel::Int8(*x),
            Value::Int16(x) => ValueModel::Int16(*x),
            Value::Int32(x) => ValueModel::Int32(*x),
            Value::Int64(x) => ValueModel::Int64(*x),
            Value::Int128(x) => ValueModel::Int128(*x),
            Value::Float32(x) => ValueModel::Float32(*x),
            Value::Float64(x) => ValueModel::Float64(*x),
            Value::String(s) => ValueModel::String(s@),
            Value::Binary(b) => ValueModel::Binary(b@),
            Value::List(items) => ValueModel::List(items_model(items@)),
            Value::Mapping(entries) => ValueModel::Mapping(entries_model(entries@)),
        }
    }
}

/// The models of a sequence of values.
pub open spec fn items_model(items: Seq<Value>) -> Seq<ValueModel>
    decreases items,
{
    if items.len() == 0 {
        Seq::empty()
    } else {
        proof {
            assert(decreases_to!(items => items.drop_last()));
        }
        items_model(items.drop_last()).push(items.last().model())
    }
}

/// The models of a sequence of map entries.
pub open spec fn entries_model(entries: Seq<(String, Value)>) -> Seq<(Seq<char>, ValueModel)>
    decreases entries,
{
    if entries.len() == 0 {
        Seq::empty()
    } else {
        proof {
            assert(decreases_to!(entries => entries.drop_last()));
            assert(decreases_to!(entries => entries.last()));
        }
        entries_model(entries.drop_last()).push((entries.last().0@, entries.last().1.model()))
    }
}

impl View for Value {
    type V = ValueModel;

    open spec fn view(&self) -> ValueModel {
        self.model()
    }
}

/// Item models line up one for one with the items.
pub proof fn lemma_items_model(items: Seq<Value>)
    ensures
        items_model(items).len() == items.len(),
        forall|j: int| 0 <= j < items.len() ==> #[trigger] items_model(items)[j] == items[j]@,
    decreases items.len(),
{
    if items.len() > 0 {
        lemma_items_model(items.drop_last());
    }
}

/// Entry models line up one for one with the entries.
pub proof fn lemma_entries_model(entries: Seq<(String, Value)>)
    ensures
        entries_model(entries).len() == entries.len(),
        forall|j: int|
            0 <= j < entries.len() ==> #[trigger] entries_model(entries)[j] == (
            entries[j].0@,
            entries[j].1@,
            ),
    decreases entries.len(),
{
    if entries.len() > 0 {
        lemma_entries_model(entries.drop_last());
    }
}


/// The name of a value's kind, as error messages print it.
pub open spec fn kind_text(v: ValueModel) -> Seq<char> {
    match v {
        ValueModel::Null => "null"@,
        ValueModel::Boolean(_) => "bool"@,
        ValueModel::UInt8(_) => "uint8"@,
        ValueModel::UInt16(_) => "uint16"@,
        ValueModel::UInt32(_) => "uint32"@,
        ValueModel::UInt64(_) => "uint64"@,
        ValueModel::UInt128(_) => "uint128"@,
        ValueModel::Int8(_) => "int8"@,
        ValueModel::Int16(_) => "int16"@,
        ValueModel::Int32(_) => "int32"@,
        ValueModel::Int64(_) => "int64"@,
        ValueModel::Int128(_) => "int128"@,
        ValueModel::Float32(_) => "float32"@,
        ValueModel::Float64(_) => "float64"@,
        ValueModel::String(_) => "string"@,
        ValueModel::Binary(_) => "binary"@,
        ValueModel::List(_) => "list"@,
        ValueModel::Mapping(_) => "map"@,
    }
}

/// The number an unsigned integer value holds.
pub open spec fn unsigned_of(v: ValueModel) -> Option<int> {
    match v {
        ValueModel::UInt8(x) => Some(x as int),
        ValueModel::UInt16(x) => Some(x as int),
        ValueModel::UInt32(x) => Some(x as int),
        ValueModel::UInt64(x) => Some(x as int),
        ValueModel::UInt128(x) => Some(x as int),
        _ => None,
    }
}

/// The number a signed integer value holds.
pub open spec fn signed_of(v: ValueModel) -> Option<int> {
    match v {
        ValueModel::Int8(x) => Some(x as int),
        ValueModel::Int16(x) => Some(x as int),
        ValueModel::Int32(x) => Some(x as int),
        ValueModel::Int64(x) => Some(x as int),
        ValueModel::Int128(x) => Some(x as int),
        _ => None,
    }
}

/// Whether a value may fill a leaf of this dtype: integers of the same
/// signedness whose number fits, Float32 or Float64 for Float64, and
/// otherwise the value kind of the dtype.
pub open spec fn scalar_fits(v: ValueModel, d: Dtype) -> bool {
    match d {
        Dtype::Boolean => v is Boolean,
        Dtype::UInt8 => unsigned_of(v) matches Some(n) && n <= u8::MAX,
        Dtype::UInt16 => unsigned_of(v) matches Some(n) && n <= u16::MAX,
        Dtype::UInt32 => unsigned_of(v) matches Some(n) && n <= u32::MAX,
        Dtype::UInt64 => unsigned_of(v) matches Some(n) && n <= u64::MAX,
        Dtype::UInt128 => unsigned_of(v) is Some,
        Dtype::Int8 => signed_of(v) matches Some(n) && i8::MIN <= n <= i8::MAX,
        Dtype::Int16 => signed_of(v) matches Some(n) && i16::MIN <= n <= i16::MAX,
        Dtype::Int32 => signed_of(v) matches Some(n) && i32::MIN <= n <= i32::MAX,
        Dtype::Int64 => signed_of(v) matches Some(n) && i64::MIN <= n <= i64::MAX,
        Dtype::Int128 => signed_of(v) is Some,
        Dtype::Float32 => v is Float32,
        Dtype::Float64 => v is Float32 || v is Float64,
        Dtype::String => v is String,
        Dtype::Binary => v is Binary,
        _ => false,
    }
}

/// Why a value does not have the requested shape.
#[derive(Debug, PartialEq, Eq)]
pub enum ValueError {
    /// A leaf value of this kind does not fit the requested dtype.
    Mismatch { kind: String, dtype: SchemaSpec },
    /// A Struct was requested for a value of this kind.
    ExpectedMap { kind: String },
    /// A List was requested for a value of this kind.
    ExpectedArray { kind: String },
}

/// Mathematical model of a value error.
pub enum ValueErrorModel {
    Mismatch(Seq<char>, Dtype),
    ExpectedMap(Seq<char>),
    ExpectedArray(Seq<char>),
}

impl View for ValueError {
    type V = ValueErrorModel;

    open spec fn view(&self) -> ValueErrorModel {
        match self {
            ValueError::Mismatch { kind, dtype } => ValueErrorModel::Mismatch(kind@, dtype@),
            ValueError::ExpectedMap { kind } => ValueErrorModel::ExpectedMap(kind@),
            ValueError::ExpectedArray { kind } => ValueErrorModel::ExpectedArray(kind@),
        }
    }
}

/// The text of a value error.
pub open spec fn value_error_text(e: ValueErrorModel) -> Seq<char> {
    match e {
        ValueErrorModel::Mismatch(kind, dtype) => "MMDB value of type "@ + kind
            + " does not match requested dtype "@ + type_text(dtype),
        ValueErrorModel::ExpectedMap(kind) => "expected MMDB map, got "@ + kind,
        ValueErrorModel::ExpectedArray(kind) => "expected MMDB array, got "@ + kind,
    }
}

impl ValueError {
    /// The text of this error.
    pub fn message(&self) -> (r: String)
        ensures
            r@ == value_error_text(self@),
    {
        let mut out = String::new();
        match self {
            ValueError::Mismatch { kind, dtype } => {
                out.append("MMDB value of type ");
                out.append(kind.as_str());
                out.append(" does not match requested dtype ");
                dtype.push_type_text(&mut out);
            },
            ValueError::ExpectedMap { kind } => {
                out.append("expected MMDB map, got ");
                out.append(kind.as_str());
            },
            ValueError::ExpectedArray { kind } => {
                out.append("expected MMDB array, got ");
                out.append(kind.as_str());
            },
        }
        assert(out@ =~= value_error_text(self@));
        out
    }
}

impl Value {
    /// The name of this value's kind.
    pub fn kind(&self) -> (r: &'static str)
        ensures
            r@ == kind_text(self@),
    {
        match self {
            Value::Null => "null",
            Value::Boolean(_) => "bool",
            Value::UInt8(_) => "uint8",
            Value::UInt16(_) => "uint16",
            Value::UInt32(_) => "uint32",
            Value::UInt64(_) => "uint64",
            Value::UInt128(_) => "uint128",
            Value::Int8(_) => "int8",
            Value::Int16(_) => "int16",
            Value::Int32(_) => "int32",
            Value::Int64(_) => "int64",
            Value::Int128(_) => "int128",
            Value::Float32(_) => "float32",
            Value::Float64(_) => "float64",
            Value::String(_) => "string",
            Value::Binary(_) => "binary",
            Value::List(_) => "list",
            Value::Mapping(_) => "map",
        }
    }

    /// A copy with the same model.
    #[verifier::loop_isolation(false)]
    pub fn duplicate(&self) -> (r: Value)
        ensures
            r@ == self@,
        decreases self,
    {
        match self {
            Value::Null => Value::Null,
            Value::Boolean(b) => Value::Boolean(*b),
            Value::UInt8(x) => Value::UInt8(*x),
            Value::UInt16(x) => Value::UInt16(*x),
            Value::UInt32(x) => Value::UInt32(*x),
            Value::UInt64(x) => Value::UInt64(*x),
            Value::UInt128(x) => Value::UInt128(*x),
            Value::Int8(x) => Value::Int8(*x),
            Value::Int16(x) => Value::Int16(*x),
            Value::Int32(x) => Value::Int32(*x),
            Value::Int64(x) => Value::Int64(*x),
            Value::Int128(x) => Value::Int128(*x),
            Value::Float32(x) => Value::Float32(*x),
            Value::Float64(x) => Value::Float64(*x),
            Value::String(s) => Value::String(s.clone()),
            Value::Binary(b) => {
                let copy = b.clone();
                assert(copy@ =~= b@);
                Value::Binary(copy)
            },
            Value::List(items) => {
                let mut copies: Vec<Value> = Vec::new();
                let n = items.len();
                let mut i: usize = 0;
                while i < n
                    invariant
                        n == items@.len(),
                        i <= n,
                        copies@.len() == i,
                        forall|j: int| 0 <= j < i ==> #[trigger] copies@[j]@ == items@[j]@,
                    decreases n - i,
                {
                    proof {
                        broadcast use vstd::std_specs::vec::axiom_vec_index_decreases;
                        assert(decreases_to!(items => items[i as int]));
                    }
                    copies.push(items[i].duplicate());
                    i = i + 1;
                }
                proof {
                    lemma_items_model(copies@);
                    lemma_items_model(items@);
                    assert(items_model(copies@) =~= items_model(items@));
                }
                Value::List(copies)
            },
            Value::Mapping(entries) => {
                let mut copies: Vec<(String, Value)> = Vec::new();
                let n = entries.len();
                let mut i: usize = 0;
                while i < n
                    invariant
                        n == entries@.len(),
                        i <= n,
                        copies@.len() == i,
                        forall|j: int|
                            #![trigger copies@[j]]
                            0 <= j < i ==> (copies@[j].0@ == entries@[j].0@ && copies@[j].1@
                                == entries@[j].1@),
                    decreases n - i,
                {
                    proof {
                        broadcast use vstd::std_specs::vec::axiom_vec_index_decreases;
                        assert(decreases_to!(entries => entries[i as int]));
                    }
                    let value = entries[i].1.duplicate();
                    let name = entries[i].0.clone();
                    copies.push((name, value));
                    i = i + 1;
                }
                proof {
                    lemma_entries_model(copies@);
                    lemma_entries_model(entries@);
                    assert(entries_model(copies@) =~= entries_model(entries@));
                }
                Value::Mapping(copies)
            },
        }
    }
}

impl Clone for Value {
    fn clone(&self) -> (r: Self)
        ensures
            r@ == self@,
    {
        self.duplicate()
    }
}

/// The number of an unsigned integer value.
pub fn unsigned(value: &Value) -> (r: Option<u128>)
    ensures
        match r {
            Some(n) => unsigned_of(value@) == Some(n as int),
            None => unsigned_of(value@) is None,
        },
{
    match value {
        Value::UInt8(x) => Some(*x as u128),
        Value::UInt16(x) => Some(*x as u128),
        Value::UInt32(x) => Some(*x as u128),
        Value::UInt64(x) => Some(*x as u128),
        Value::UInt128(x) => Some(*x),
        _ => None,
    }
}

/// The number of a signed integer value.
pub fn signed(value: &Value) -> (r: Option<i128>)
    ensures
        match r {
            Some(n) => signed_of(value@) == Some(n as int),
            None => signed_of(value@) is None,
        },
{
    match value {
        Value::Int8(x) => Some(*x as i128),
        Value::Int16(x) => Some(*x as i128),
        Value::Int32(x) => Some(*x as i128),
        Value::Int64(x) => Some(*x as i128),
        Value::Int128(x) => Some(*x),
        _ => None,
    }
}

/// Whether a value fits a leaf dtype.
pub fn fits_scalar(value: &Value, schema: &SchemaSpec) -> (r: bool)
    ensures
        r == scalar_fits(value@, schema@),
{
    match schema {
        SchemaSpec::Boolean => matches!(value, Value::Boolean(_)),
        SchemaSpec::UInt8 => match unsigned(value) {
            Some(n) => n <= 0xff,
            None => false,
        },
        SchemaSpec::UInt16 => match unsigned(value) {
            Some(n) => n <= 0xffff,
            None => false,
        },
        SchemaSpec::UInt32 => match unsigned(value) {
            Some(n) => n <= 0xffff_ffff,
            None => false,
        },
        SchemaSpec::UInt64 => match unsigned(value) {
            Some(n) => n <= 0xffff_ffff_ffff_ffff,
            None => false,
        },
        SchemaSpec::UInt128 => unsigned(value).is_some(),
        SchemaSpec::Int8 => match signed(value) {
            Some(n) => -0x80 <= n && n <= 0x7f,
            None => false,
        },
        SchemaSpec::Int16 => match signed(value) {
            Some(n) => -0x8000 <= n && n <= 0x7fff,
            None => false,
        },
        SchemaSpec::Int32 => match signed(value) {
            Some(n) => -0x8000_0000 <= n && n <= 0x7fff_ffff,
            None => false,
        },
        SchemaSpec::Int64 => match signed(value) {
            Some(n) => -0x8000_0000_0000_0000 <= n && n <= 0x7fff_ffff_ffff_ffff,
            None => false,
        },
        SchemaSpec::Int128 => signed(value).is_some(),
        SchemaSpec::Float32 => matches!(value, Value::Float32(_)),
        SchemaSpec::Float64 => matches!(value, Value::Float32(_) | Value::Float64(_)),
        SchemaSpec::String => matches!(value, Value::String(_)),
        SchemaSpec::Binary => matches!(value, Value::Binary(_)),
        SchemaSpec::List { .. } => false,
        SchemaSpec::Struct { .. } => false,
    }
}

/// The mismatch error for a value and a dtype.
pub fn mismatch(value: &Value, schema: &SchemaSpec) -> (r: ValueError)
    ensures
        r@ == ValueErrorModel::Mismatch(kind_text(value@), schema@),
{
    ValueError::Mismatch { kind: value.kind().to_owned(), dtype: schema.duplicate() }
}

/// Checks that a value fits a leaf dtype.
pub fn validate_scalar(value: &Value, schema: &SchemaSpec) -> (r: Result<(), ValueError>)
    requires
        !(schema@ is List || schema@ is Struct),
    ensures
        match r {
            Ok(()) => scalar_fits(value@, schema@),
            Err(e) => !scalar_fits(value@, schema@) && e@ == ValueErrorModel::Mismatch(
                kind_text(value@),
                schema@,
            ),
        },
{
    if fits_scalar(value, schema) {
        Ok(())
    } else {
        Err(mismatch(value, schema))
    }
}


/// The value that stands for a missing value of a dtype: a Struct gets every
/// field's default, a List is empty, a leaf is null.
pub open spec fn default_model(d: Dtype) -> ValueModel
    decreases d,
{
    match d {
        Dtype::Struct(fields) => ValueModel::Mapping(field_defaults(fields)),
        Dtype::List(_) => ValueModel::List(Seq::empty()),
        _ => ValueModel::Null,
    }
}

/// Each field's name with its default value, in field order.
pub open spec fn field_defaults(fields: Seq<FieldModel>) -> Seq<(Seq<char>, ValueModel)>
    decreases fields,
{
    if fields.len() == 0 {
        Seq::empty()
    } else {
        proof {
            assert(decreases_to!(fields => fields.drop_last()));
            assert(decreases_to!(fields => fields[fields.len() - 1]));
        }
        field_defaults(fields.drop_last()).push(
            (fields.last().name, default_model(fields.last().dtype)),
        )
    }
}

/// The defaults of some fields, index by index.
pub proof fn lemma_field_defaults(fields: Seq<FieldModel>)
    ensures
        field_defaults(fields).len() == fields.len(),
        forall|j: int|
            0 <= j < fields.len() ==> #[trigger] field_defaults(fields)[j] == (
            fields[j].name,
            default_model(fields[j].dtype),
            ),
    decreases fields.len(),
{
    if fields.len() > 0 {
        lemma_field_defaults(fields.drop_last());
    }
}

/// The default value of a dtype.
#[verifier::loop_isolation(false)]
pub fn default_value(schema: &SchemaSpec) -> (r: Value)
    ensures
        r@ == default_model(schema@),
    decreases schema,
{
    match schema {
        SchemaSpec::Struct { fields } => {
            let mut entries: Vec<(String, Value)> = Vec::new();
            let n = fields.len();
            let mut i: usize = 0;
            while i < n
                invariant
                    n == fields@.len(),
                    i <= n,
                    entries@.len() == i,
                    forall|j: int|
                        #![trigger entries@[j]]
                        0 <= j < i ==> (entries@[j].0@ == fields@[j].name@ && entries@[j].1@
                            == default_model(fields@[j].dtype@)),
                decreases n - i,
            {
                proof {
                    broadcast use vstd::std_specs::vec::axiom_vec_index_decreases;
                    assert(decreases_to!(fields => fields[i as int]));
                }
                let value = default_value(&fields[i].dtype);
                entries.push((fields[i].name.clone(), value));
                i = i + 1;
            }
            proof {
                lemma_entries_model(entries@);
                lemma_fields_model(fields@);
                lemma_field_defaults(fields_model(fields@));
                assert(entries_model(entries@) =~= field_defaults(fields_model(fields@)));
            }
            Value::Mapping(entries)
        },
        SchemaSpec::List { .. } => {
            let items: Vec<Value> = Vec::new();
            assert(items_model(items@) =~= Seq::<ValueModel>::empty());
            Value::List(items)
        },
        _ => Value::Null,
    }
}

/// The index of the first entry named `name`, if any.
pub open spec fn first_entry(entries: Seq<(Seq<char>, ValueModel)>, name: Seq<char>) -> Option<int> {
    if exists|i: int|
        0 <= i < entries.len() && #[trigger] entries[i].0 == name && forall|j: int|
            0 <= j < i ==> entries[j].0 != name {
        Some(
            choose|i: int|
                0 <= i < entries.len() && #[trigger] entries[i].0 == name && forall|j: int|
                    0 <= j < i ==> entries[j].0 != name,
        )
    } else {
        None
    }
}

/// The value projected onto a dtype: a map keeps exactly the requested
/// fields, in schema order, each taken from the first entry of that name or
/// defaulted; a list projects every element; a null container becomes the
/// dtype's default; a leaf must fit its dtype.
pub open spec fn project_model(v: ValueModel, d: Dtype) -> Result<ValueModel, ValueErrorModel>
    decreases d, 0nat,
{
    match d {
        Dtype::Struct(fields) => match v {
            ValueModel::Mapping(entries) => match project_fields(entries, fields) {
                Ok(projected) => Ok(ValueModel::Mapping(projected)),
                Err(e) => Err(e),
            },
            ValueModel::Null => Ok(default_model(d)),
            _ => Err(ValueErrorModel::ExpectedMap(kind_text(v))),
        },
        Dtype::List(inner) => match v {
            ValueModel::List(items) => match project_items(items, *inner) {
                Ok(projected) => Ok(ValueModel::List(projected)),
                Err(e) => Err(e),
            },
            ValueModel::Null => Ok(default_model(d)),
            _ => Err(ValueErrorModel::ExpectedArray(kind_text(v))),
        },
        _ => if v is Null {
            Ok(ValueModel::Null)
        } else if scalar_fits(v, d) {
            Ok(v)
        } else {
            Err(ValueErrorModel::Mismatch(kind_text(v), d))
        },
    }
}

/// The requested fields of a map, projected in field order; the first
/// field that fails gives the error.
pub open spec fn project_fields(
    entries: Seq<(Seq<char>, ValueModel)>,
    fields: Seq<FieldModel>,
) -> Result<Seq<(Seq<char>, ValueModel)>, ValueErrorModel>
    decreases fields, 0nat,
{
    if fields.len() == 0 {
        Ok(Seq::empty())
    } else {
        proof {
            assert(decreases_to!(fields => fields.drop_last()));
            assert(decreases_to!(fields => fields[fields.len() - 1]));
        }
        match project_fields(entries, fields.drop_last()) {
            Err(e) => Err(e),
            Ok(prefix) => {
                let f = fields.last();
                let projected = match first_entry(entries, f.name) {
                    Some(i) => project_model(entries[i].1, f.dtype),
                    None => Ok(default_model(f.dtype)),
                };
                match projected {
                    Ok(x) => Ok(prefix.push((f.name, x))),
                    Err(e) => Err(e),
                }
            },
        }
    }
}

/// Every element of a list projected onto `inner`; the first element that
/// fails gives the error.
pub open spec fn project_items(items: Seq<ValueModel>, inner: Dtype) -> Result<
    Seq<ValueModel>,
    ValueErrorModel,
>
    decreases inner, items.len(),
{
    if items.len() == 0 {
        Ok(Seq::empty())
    } else {
        match project_items(items.drop_last(), inner) {
            Err(e) => Err(e),
            Ok(prefix) => match project_model(items.last(), inner) {
                Ok(x) => Ok(prefix.push(x)),
                Err(e) => Err(e),
            },
        }
    }
}


/// The model of a projection result.
pub open spec fn result_model(r: Result<Value, ValueError>) -> Result<ValueModel, ValueErrorModel> {
    match r {
        Ok(v) => Ok(v@),
        Err(e) => Err(e@),
    }
}

/// Once a prefix of the fields fails, projecting all of them fails the same way.
pub proof fn lemma_project_fields_err(
    entries: Seq<(Seq<char>, ValueModel)>,
    fields: Seq<FieldModel>,
    k: int,
)
    requires
        0 <= k <= fields.len(),
        project_fields(entries, fields.take(k)) is Err,
    ensures
        project_fields(entries, fields) == project_fields(entries, fields.take(k)),
    decreases fields.len(),
{
    if fields.len() > k {
        assert(fields.drop_last().take(k) =~= fields.take(k));
        lemma_project_fields_err(entries, fields.drop_last(), k);
    } else {
        assert(fields.take(k) =~= fields);
    }
}

/// Once a prefix of the items fails, projecting all of them fails the same way.
pub proof fn lemma_project_items_err(items: Seq<ValueModel>, inner: Dtype, k: int)
    requires
        0 <= k <= items.len(),
        project_items(items.take(k), inner) is Err,
    ensures
        project_items(items, inner) == project_items(items.take(k), inner),
    decreases items.len(),
{
    if items.len() > k {
        assert(items.drop_last().take(k) =~= items.take(k));
        lemma_project_items_err(items.drop_last(), inner, k);
    } else {
        assert(items.take(k) =~= items);
    }
}

/// The position of the first entry named `name`.
pub fn find_entry(entries: &Vec<(String, Value)>, name: &str) -> (r: Option<usize>)
    ensures
        match r {
            Some(i) => i < entries@.len() && entries@[i as int].0@ == name@ && forall|j: int|
                0 <= j < i ==> #[trigger] entries@[j].0@ != name@,
            None => forall|j: int| 0 <= j < entries@.len() ==> #[trigger] entries@[j].0@ != name@,
        },
{
    let m = entries.len();
    let mut i: usize = 0;
    while i < m
        invariant
            m == entries@.len(),
            i <= m,
            forall|j: int| 0 <= j < i ==> #[trigger] entries@[j].0@ != name@,
        decreases m - i,
    {
        if crate::text::str_equal(entries[i].0.as_str(), name) {
            return Some(i);
        }
        i = i + 1;
    }
    None
}

/// `find_entry` locates exactly the entry that `first_entry` designates.
pub proof fn lemma_first_entry(entries: Seq<(String, Value)>, name: Seq<char>, found: Option<int>)
    requires
        match found {
            Some(i) => 0 <= i < entries.len() && entries[i].0@ == name && forall|j: int|
                0 <= j < i ==> #[trigger] entries[j].0@ != name,
            None => forall|j: int| 0 <= j < entries.len() ==> #[trigger] entries[j].0@ != name,
        },
    ensures
        first_entry(entries_model(entries), name) == found,
{
    lemma_entries_model(entries);
    let es = entries_model(entries);
    match found {
        Some(i) => {
            assert(es[i].0 == name);
            assert(forall|j: int| 0 <= j < i ==> es[j].0 != name) by {
                assert forall|j: int| 0 <= j < i implies es[j].0 != name by {
                    assert(entries[j].0@ != name);
                }
            }
            let c = choose|c: int|
                0 <= c < es.len() && #[trigger] es[c].0 == name && forall|j: int|
                    0 <= j < c ==> es[j].0 != name;
            if c < i {
                assert(entries[c].0@ != name);
            }
            if c > i {
                assert(es[i].0 != name);
            }
        },
        None => {
            if exists|c: int|
                0 <= c < es.len() && #[trigger] es[c].0 == name && forall|j: int|
                    0 <= j < c ==> es[j].0 != name {
                let c = choose|c: int|
                    0 <= c < es.len() && #[trigger] es[c].0 == name && forall|j: int|
                        0 <= j < c ==> es[j].0 != name;
                assert(entries[c].0@ != name);
            }
        },
    }
}

/// Projects a value onto the requested dtype.
#[verifier::loop_isolation(false)]
pub fn project_value(value: &Value, schema: &SchemaSpec) -> (r: Result<Value, ValueError>)
    ensures
        result_model(r) == project_model(value@, schema@),
    decreases schema,
{
    match schema {
        SchemaSpec::Struct { fields } => match value {
            Value::Mapping(entries) => {
                let ghost es = entries_model(entries@);
                let ghost fs = fields_model(fields@);
                proof {
                    lemma_fields_model(fields@);
                    lemma_entries_model(entries@);
                }
                let mut out: Vec<(String, Value)> = Vec::new();
                let n = fields.len();
                let mut i: usize = 0;
                assert(fs.take(0) =~= Seq::<FieldModel>::empty());
                assert(entries_model(out@) =~= Seq::<(Seq<char>, ValueModel)>::empty());
                while i < n
                    invariant
                        n == fields@.len(),
                        n == fs.len(),
                        i <= n,
                        project_fields(es, fs.take(i as int)) == Ok::<
                            Seq<(Seq<char>, ValueModel)>,
                            ValueErrorModel,
                        >(entries_model(out@)),
                    decreases n - i,
                {
                    proof {
                        broadcast use vstd::std_specs::vec::axiom_vec_index_decreases;
                        assert(decreases_to!(fields => fields[i as int]));
                        assert(fs.take(i + 1).drop_last() =~= fs.take(i as int));
                        assert(fs.take(i + 1).last() == fs[i as int]);
                        lemma_entries_model(out@);
                    }
                    let found = find_entry(entries, fields[i].name.as_str());
                    proof {
                        lemma_first_entry(
                            entries@,
                            fields@[i as int].name@,
                            match found {
                                Some(j) => Some(j as int),
                                None => None,
                            },
                        );
                    }
                    let projected = match found {
                        Some(j) => match project_value(&entries[j].1, &fields[i].dtype) {
                            Ok(x) => x,
                            Err(e) => {
                                proof {
                                    lemma_project_fields_err(es, fs, i + 1);
                                }
                                return Err(e);
                            },
                        },
                        None => default_value(&fields[i].dtype),
                    };
                    let ghost before = out@;
                    out.push((fields[i].name.clone(), projected));
                    proof {
                        lemma_entries_model(out@);
                        lemma_entries_model(before);
                        assert(entries_model(out@) =~= entries_model(before).push(
                            (fields@[i as int].name@, projected@),
                        ));
                    }
                    i = i + 1;
                }
                assert(fs.take(n as int) =~= fs);
                Ok(Value::Mapping(out))
            },
            Value::Null => Ok(default_value(schema)),
            _ => Err(ValueError::ExpectedMap { kind: value.kind().to_owned() }),
        },
        SchemaSpec::List { inner } => match value {
            Value::List(items) => {
                let ghost vs = items_model(items@);
                proof {
                    lemma_items_model(items@);
                }
                let mut out: Vec<Value> = Vec::new();
                let n = items.len();
                let mut i: usize = 0;
                assert(vs.take(0) =~= Seq::<ValueModel>::empty());
                assert(items_model(out@) =~= Seq::<ValueModel>::empty());
                while i < n
                    invariant
                        n == items@.len(),
                        n == vs.len(),
                        i <= n,
                        project_items(vs.take(i as int), inner@) == Ok::<
                            Seq<ValueModel>,
                            ValueErrorModel,
                        >(items_model(out@)),
                    decreases n - i,
                {
                    proof {
                        assert(vs.take(i + 1).drop_last() =~= vs.take(i as int));
                        assert(vs.take(i + 1).last() == vs[i as int]);
                    }
                    let projected = match project_value(&items[i], inner) {
                        Ok(x) => x,
                        Err(e) => {
                            proof {
                                lemma_project_items_err(vs, inner@, i + 1);
                            }
                            return Err(e);
                        },
                    };
                    let ghost before = out@;
                    out.push(projected);
                    proof {
                        lemma_items_model(out@);
                        lemma_items_model(before);
                        assert(items_model(out@) =~= items_model(before).push(projected@));
                    }
                    i = i + 1;
                }
                assert(vs.take(n as int) =~= vs);
                Ok(Value::List(out))
            },
            Value::Null => Ok(default_value(schema)),
            _ => Err(ValueError::ExpectedArray { kind: value.kind().to_owned() }),
        },
        _ => {
            if matches!(value, Value::Null) {
                Ok(Value::Null)
            } else {
                match validate_scalar(value, schema) {
                    Ok(()) => Ok(value.duplicate()),
                    Err(e) => Err(e),
                }
            }
        },
    }
}


/// The value reached by following map keys from `v`: each key selects the
/// first entry of that name; a missing key or a non-map on the way gives
/// nothing.
pub open spec fn value_at(v: ValueModel, path: Seq<Seq<char>>) -> Option<ValueModel>
    decreases path.len(),
{
    if path.len() == 0 {
        Some(v)
    } else {
        match v {
            ValueModel::Mapping(entries) => match first_entry(entries, path[0]) {
                Some(j) => value_at(entries[j].1, path.drop_first()),
                None => None,
            },
            _ => None,
        }
    }
}

/// The value at a path of map keys inside a decoded value, if it is there.
pub fn value_at_path<'a>(value: &'a Value, path: &Vec<String>) -> (r: Option<&'a Value>)
    ensures
        match r {
            Some(x) => value_at(value@, path@.map_values(|k: String| k@)) == Some(x@),
            None => value_at(value@, path@.map_values(|k: String| k@)) is None,
        },
{
    let ghost keys = path@.map_values(|k: String| k@);
    let mut current: &'a Value = value;
    let n = path.len();
    let mut i: usize = 0;
    assert(keys.skip(0) =~= keys);
    while i < n
        invariant
            n == path@.len(),
            keys == path@.map_values(|k: String| k@),
            i <= n,
            value_at(value@, keys) == value_at(current@, keys.skip(i as int)),
        decreases n - i,
    {
        let ghost rest = keys.skip(i as int);
        assert(rest[0] == path@[i as int]@);
        assert(rest.drop_first() =~= keys.skip(i + 1));
        match current {
            Value::Mapping(entries) => {
                let found = find_entry(entries, path[i].as_str());
                proof {
                    lemma_entries_model(entries@);
                    lemma_first_entry(
                        entries@,
                        path@[i as int]@,
                        match found {
                            Some(j) => Some(j as int),
                            None => None,
                        },
                    );
                }
                match found {
                    Some(j) => {
                        current = &entries[j].1;
                    },
                    None => {
                        return None;
                    },
                }
            },
            _ => {
                return None;
            },
        }
        i = i + 1;
    }
    assert(keys.skip(n as int) =~= Seq::<Seq<char>>::empty());
    Some(current)
}

/// The map that a finished record gives: every requested field in order, with
/// its slot's value or, for an empty slot, the field's default.
pub open spec fn finished(fields: Seq<SchemaField>, slots: Seq<Option<ValueModel>>) -> ValueModel {
    ValueModel::Mapping(
        Seq::new(
            fields.len(),
            |i: int|
                (
                    fields[i].name@,
                    match slots[i] {
                        Some(v) => v,
                        None => default_model(fields[i].dtype@),
                    },
                ),
        ),
    )
}

/// The fields of a map being decoded onto a Struct dtype: one slot per
/// requested field, filled as entries of that name arrive.
pub struct ProjectedRecord {
    slots: Vec<Option<Value>>,
}

impl ProjectedRecord {
    /// The slots, in field order.
    pub closed spec fn slots(&self) -> Seq<Option<ValueModel>> {
        self.slots@.map_values(
            |s: Option<Value>|
                match s {
                    Some(v) => Some(v@),
                    None => None,
                },
        )
    }

    /// A record with every slot empty.
    pub fn new(field_count: usize) -> (r: ProjectedRecord)
        ensures
            r.slots() == Seq::new(field_count as nat, |i: int| None::<ValueModel>),
    {
        let mut slots: Vec<Option<Value>> = Vec::new();
        let mut i: usize = 0;
        while i < field_count
            invariant
                i <= field_count,
                slots@.len() == i,
                forall|j: int| 0 <= j < i ==> #[trigger] slots@[j] is None,
            decreases field_count - i,
        {
            slots.push(None);
            i = i + 1;
        }
        let r = ProjectedRecord { slots };
        assert(r.slots() =~= Seq::new(field_count as nat, |i: int| None::<ValueModel>));
        r
    }

    /// The field that an entry key fills: the first field of that name.
    pub fn slot_for(fields: &Vec<SchemaField>, key: &str) -> (r: Option<usize>)
        ensures
            r == match first_field_index(fields@, key@) {
                Some(i) => Some(i as usize),
                None => None::<usize>,
            },
    {
        let found = crate::schema::find_field(fields, key);
        proof {
            match found {
                Some(i) => {
                    let c = choose|c: int|
                        0 <= c < fields@.len() && #[trigger] fields@[c].name@ == key@ && forall|
                            j: int,
                        | 0 <= j < c ==> fields@[j].name@ != key@;
                    if c < i {
                        assert(fields@[c].name@ != key@);
                    }
                    if c > i {
                        assert(fields@[i as int].name@ != key@);
                    }
                },
                None => {
                    if exists|c: int|
                        0 <= c < fields@.len() && #[trigger] fields@[c].name@ == key@ && forall|
                            j: int,
                        | 0 <= j < c ==> fields@[j].name@ != key@ {
                        let c = choose|c: int|
                            0 <= c < fields@.len() && #[trigger] fields@[c].name@ == key@ && forall|
                                j: int,
                            | 0 <= j < c ==> fields@[j].name@ != key@;
                        assert(fields@[c].name@ != key@);
                    }
                },
            }
        }
        found
    }

    /// Fills a slot (a later entry of the same name replaces an earlier one).
    pub fn fill(&mut self, index: usize, value: Value)
        requires
            index < old(self).slots().len(),
        ensures
            final(self).slots() == old(self).slots().update(index as int, Some(value@)),
    {
        let ghost before = self.slots();
        self.slots.set(index, Some(value));
        assert(self.slots() =~= before.update(index as int, Some(value@)));
    }

    /// The decoded map: every requested field in order, with its slot's
    /// value or, for an empty slot, the field's default.
    pub fn finish(self, fields: &Vec<SchemaField>) -> (r: Value)
        requires
            self.slots().len() == fields@.len(),
        ensures
            r@ == finished(fields@, self.slots()),
    {
        let ghost slots = self.slots();
        let mut remaining = self.slots;
        let mut entries: Vec<(String, Value)> = Vec::new();
        let n = fields.len();
        let mut i: usize = 0;
        while i < n
            invariant
                n == fields@.len(),
                slots.len() == n,
                remaining@.len() == n,
                i <= n,
                entries@.len() == i,
                forall|j: int|
                    i <= j < n ==> #[trigger] remaining@[j] == self.slots@[j],
                forall|j: int|
                    #![trigger entries@[j]]
                    0 <= j < i ==> (entries@[j].0@ == fields@[j].name@ && entries@[j].1@ == match slots[j] {
                        Some(v) => v,
                        None => default_model(fields@[j].dtype@),
                    }),
                slots == self.slots@.map_values(
                    |s: Option<Value>|
                        match s {
                            Some(v) => Some(v@),
                            None => None,
                        },
                ),
            decreases n - i,
        {
            let mut taken: Option<Value> = None;
            remaining.set_and_swap(i, &mut taken);
            let value = match taken {
                Some(v) => v,
                None => default_value(&fields[i].dtype),
            };
            entries.push((fields[i].name.clone(), value));
            i = i + 1;
        }
        proof {
            lemma_entries_model(entries@);
        }
        let r = Value::Mapping(entries);
        assert(entries_model(entries@) =~= Seq::new(
            fields@.len(),
            |i: int|
                (
                    fields@[i].name@,
                    match slots[i] {
                        Some(v) => v,
                        None => default_model(fields@[i].dtype@),
                    },
                ),
        ));
        r
    }
}

/// The position of the first field of a name, in a sequence of fields.
pub open spec fn first_field_index(fields: Seq<SchemaField>, key: Seq<char>) -> Option<int> {
    if exists|i: int|
        0 <= i < fields.len() && #[trigger] fields[i].name@ == key && forall|j: int|
            0 <= j < i ==> fields[j].name@ != key {
        Some(
            choose|i: int|
                0 <= i < fields.len() && #[trigger] fields[i].name@ == key && forall|j: int|
                    0 <= j < i ==> fields[j].name@ != key,
        )
    } else {
        None
    }
}

} // verus!
