use vstd::prelude::*;
use vstd::string::*;

use crate::known::KnownRecord;
use crate::text::{decimal, decimal_string, push_decimal, push_quoted, quoted, str_equal};

verus! {

/// One component of a lookup path: a map key or a list index
/// (negative indexes count from the end of a list).
#[derive(Debug, PartialEq, Eq)]
pub enum PathPart {
    Key(String),
    Index(i64),
}

impl Clone for PathPart {
    fn clone(&self) -> (r: Self)
        ensures
            r@ == self@,
    {
        match self {
            PathPart::Key(key) => PathPart::Key(key.clone()),
            PathPart::Index(index) => PathPart::Index(*index),
        }
    }
}

/// The requested shape of a decoded value.
#[derive(Debug, PartialEq, Eq)]
pub enum SchemaSpec {
    Boolean,
    UInt8,
    UInt16,
    UInt32,
    UInt64,
    UInt128,
    Int8,
    Int16,
    Int32,
    Int64,
    Int128,
    Float32,
    Float64,
    String,
    Binary,
    List { inner: Box<SchemaSpec> },
    Struct { fields: Vec<SchemaField> },
}

/// A named field of a Struct schema.
#[derive(Debug, PartialEq, Eq)]
pub struct SchemaField {
    pub name: String,
    pub dtype: SchemaSpec,
}

/// Mathematical model of a schema: names are character sequences.
pub enum Dtype {
    Boolean,
    UInt8,
    UInt16,
    UInt32,
    UInt64,
    UInt128,
    Int8,
    Int16,
    Int32,
    Int64,
    Int128,
    Float32,
    Float64,
    String,
    Binary,
    List(Box<Dtype>),
    Struct(Seq<FieldModel>),
}

/// Mathematical model of a Struct field.
pub struct FieldModel {
    pub name: Seq<char>,
    pub dtype: Dtype,
}

/// Mathematical model of a path component.
pub enum PartModel {
    Key(Seq<char>),
    Index(int),
}

impl SchemaSpec {
    /// The mathematical model of this schema.
    pub open spec fn model(&self) -> Dtype
        decreases self,
    {
        match self {
            SchemaSpec::Boolean => Dtype::Boolean,
            SchemaSpec::UInt8 => Dtype::UInt8,
            SchemaSpec::UInt16 => Dtype::UInt16,
            SchemaSpec::UInt32 => Dtype::UInt32,
            SchemaSpec::UInt64 => Dtype::UInt64,
            SchemaSpec::UInt128 => Dtype::UInt128,
            SchemaSpec::Int8 => Dtype::Int8,
            SchemaSpec::Int16 => Dtype::Int16,
            SchemaSpec::Int32 => Dtype::Int32,
            SchemaSpec::Int64 => Dtype::Int64,
            SchemaSpec::Int128 => Dtype::Int128,
            SchemaSpec::Float32 => Dtype::Float32,
            SchemaSpec::Float64 => Dtype::Float64,
            SchemaSpec::String => Dtype::String,
            SchemaSpec::Binary => Dtype::Binary,
            SchemaSpec::List { inner } => Dtype::List(Box::new(inner.model())),
            SchemaSpec::Struct { fields } => Dtype::Struct(fields_model(fields@)),
        }
    }
}

/// The models of a sequence of fields, in order.
pub open spec fn fields_model(fields: Seq<SchemaField>) -> Seq<FieldModel>
    decreases fields,
{
    if fields.len() == 0 {
        Seq::empty()
    } else {
        proof {
            assert(decreases_to!(fields => fields.drop_last()));
        }
        fields_model(fields.drop_last()).push(
            FieldModel { name: fields.last().name@, dtype: fields.last().dtype.model() },
        )
    }
}

impl View for SchemaSpec {
    type V = Dtype;

    open spec fn view(&self) -> Dtype {
        self.model()
    }
}


impl View for PathPart {
    type V = PartModel;

    open spec fn view(&self) -> PartModel {
        match self {
            PathPart::Key(key) => PartModel::Key(key@),
            PathPart::Index(index) => PartModel::Index(*index as int),
        }
    }
}

/// The models of a sequence of path components.
pub open spec fn parts_model(path: Seq<PathPart>) -> Seq<PartModel> {
    path.map_values(|part: PathPart| part@)
}

/// Field models line up one for one with the fields they describe.
pub proof fn lemma_fields_model(fields: Seq<SchemaField>)
    ensures
        fields_model(fields).len() == fields.len(),
        forall|j: int|
            0 <= j < fields.len() ==> #[trigger] fields_model(fields)[j] == (FieldModel {
                name: fields[j].name@,
                dtype: fields[j].dtype@,
            }),
    decreases fields.len(),
{
    if fields.len() > 0 {
        lemma_fields_model(fields.drop_last());
    }
}

/// The text of one path component: a key as is, an index in decimal.
pub open spec fn part_text(part: PartModel) -> Seq<char> {
    match part {
        PartModel::Key(key) => key,
        PartModel::Index(index) => decimal(index),
    }
}

/// The components of a path joined by `/`.
pub open spec fn path_text(path: Seq<PartModel>) -> Seq<char>
    decreases path.len(),
{
    if path.len() == 0 {
        Seq::empty()
    } else if path.len() == 1 {
        part_text(path[0])
    } else {
        path_text(path.drop_last()) + seq!['/'] + part_text(path.last())
    }
}

impl PathPart {
    /// The text of this component.
    pub fn render(&self) -> (r: String)
        ensures
            r@ == part_text(self@),
    {
        match self {
            PathPart::Key(key) => key.clone(),
            PathPart::Index(index) => decimal_string(*index as i128),
        }
    }
}

/// Appends the first `count` components of `path`, joined by `/`.
fn push_path(out: &mut String, path: &[PathPart], count: usize)
    requires
        count <= path@.len(),
    ensures
        final(out)@ == old(out)@ + path_text(parts_model(path@.take(count as int))),
{
    let ghost start = out@;
    let mut i: usize = 0;
    while i < count
        invariant
            count <= path@.len(),
            i <= count,
            out@ == start + path_text(parts_model(path@.take(i as int))),
        decreases count - i,
    {
        let ghost before = parts_model(path@.take(i as int));
        let ghost after = parts_model(path@.take(i + 1));
        assert(after.drop_last() =~= before);
        assert(after.last() == path@[i as int]@);
        if i > 0 {
            proof { reveal_strlit("/"); }
            out.append("/");
        }
        let piece = path[i].render();
        out.append(piece.as_str());
        assert(out@ =~= start + path_text(after));
        i = i + 1;
    }
}

/// The first `count` components of `path`, joined by `/`.
pub fn render_path(path: &[PathPart], count: usize) -> (r: String)
    requires
        count <= path@.len(),
    ensures
        r@ == path_text(parts_model(path@.take(count as int))),
{
    let mut out = String::new();
    push_path(&mut out, path, count);
    assert(out@ =~= path_text(parts_model(path@.take(count as int))));
    out
}


/// The position of the first field named `key`.
pub fn find_field(fields: &Vec<SchemaField>, key: &str) -> (r: Option<usize>)
    ensures
        match r {
            Some(i) => i < fields@.len() && fields@[i as int].name@ == key@ && forall|j: int|
                0 <= j < i ==> #[trigger] fields@[j].name@ != key@,
            None => forall|j: int| 0 <= j < fields@.len() ==> #[trigger] fields@[j].name@ != key@,
        },
{
    let m = fields.len();
    let mut i: usize = 0;
    while i < m
        invariant
            m == fields@.len(),
            i <= m,
            forall|j: int| 0 <= j < i ==> #[trigger] fields@[j].name@ != key@,
        decreases m - i,
    {
        if str_equal(fields[i].name.as_str(), key) {
            return Some(i);
        }
        i = i + 1;
    }
    None
}

/// The index of the first field named `key`, if any.
pub open spec fn first_field(fields: Seq<FieldModel>, key: Seq<char>) -> Option<int> {
    if exists|i: int|
        0 <= i < fields.len() && #[trigger] fields[i].name == key && forall|j: int|
            0 <= j < i ==> fields[j].name != key {
        Some(
            choose|i: int|
                0 <= i < fields.len() && #[trigger] fields[i].name == key && forall|j: int|
                    0 <= j < i ==> fields[j].name != key,
        )
    } else {
        None
    }
}

/// `find_field` locates exactly the field that `first_field` designates.
pub proof fn lemma_find_field_first(fields: Seq<SchemaField>, key: Seq<char>, found: Option<int>)
    requires
        match found {
            Some(i) => 0 <= i < fields.len() && fields[i].name@ == key && forall|j: int|
                0 <= j < i ==> #[trigger] fields[j].name@ != key,
            None => forall|j: int| 0 <= j < fields.len() ==> #[trigger] fields[j].name@ != key,
        },
    ensures
        first_field(fields_model(fields), key) == found,
{
    lemma_fields_model(fields);
    let fm = fields_model(fields);
    match found {
        Some(i) => {
            assert(fm[i].name == key);
            assert(forall|j: int| 0 <= j < i ==> fm[j].name != key) by {
                assert forall|j: int| 0 <= j < i implies fm[j].name != key by {
                    assert(fields[j].name@ != key);
                }
            }
            let c = choose|c: int|
                0 <= c < fm.len() && #[trigger] fm[c].name == key && forall|j: int|
                    0 <= j < c ==> fm[j].name != key;
            if c < i {
                assert(fields[c].name@ != key);
            }
            if c > i {
                assert(fm[i].name != key);
            }
        },
        None => {
            if exists|c: int|
                0 <= c < fm.len() && #[trigger] fm[c].name == key && forall|j: int|
                    0 <= j < c ==> fm[j].name != key {
                let c = choose|c: int|
                    0 <= c < fm.len() && #[trigger] fm[c].name == key && forall|j: int|
                        0 <= j < c ==> fm[j].name != key;
                assert(fields[c].name@ != key);
            }
        },
    }
}

/// Applies one path component to a dtype: a key selects the first field of
/// that name in a Struct, an index selects the element dtype of a List.
pub open spec fn step(d: Dtype, part: PartModel) -> Option<Dtype> {
    match part {
        PartModel::Key(key) => match d {
            Dtype::Struct(fields) => match first_field(fields, key) {
                Some(i) => Some(fields[i].dtype),
                None => None,
            },
            _ => None,
        },
        PartModel::Index(_) => match d {
            Dtype::List(inner) => Some(*inner),
            _ => None,
        },
    }
}

/// The dtype that a whole path selects, if every component applies.
pub open spec fn walk(d: Dtype, path: Seq<PartModel>) -> Option<Dtype>
    decreases path.len(),
{
    if path.len() == 0 {
        Some(d)
    } else {
        match walk(d, path.drop_last()) {
            Some(e) => step(e, path.last()),
            None => None,
        }
    }
}

/// Why a schema could not be planned.
#[derive(Debug, PartialEq, Eq)]
pub enum PlanError {
    /// A lookup path has no components.
    EmptyPath,
    /// A key names no field of the Struct that it is applied to.
    NoField { key: String, at: String },
    /// A component does not apply to the dtype reached so far.
    CannotApply { component: String, dtype: SchemaSpec, at: String },
    /// An explicit dtype differs from the one a known schema gives the path.
    DtypeMismatch { explicit: SchemaSpec, inferred: SchemaSpec, at: String },
    /// The database type has no known schema and no dtype was given.
    CannotInfer { database_type: String },
    /// A non-negative path index does not fit a `usize`.
    IndexTooLarge { index: i64 },
    /// A negative path index cannot be counted from the end.
    IndexTooSmall { index: i64 },
    /// A record dtype is not a Struct.
    RecordNotStruct { dtype: SchemaSpec },
}

/// `e` is the error for the first component of `path` that does not apply,
/// starting from `d`.
pub open spec fn walk_error(d: Dtype, path: Seq<PathPart>, e: PlanError) -> bool {
    exists|p: int|
        #![trigger path[p]]
        0 <= p < path.len() && walk(d, parts_model(path.take(p))) is Some && step(
            walk(d, parts_model(path.take(p))).unwrap(),
            path[p]@,
        ) is None && ({
            let reached = walk(d, parts_model(path.take(p))).unwrap();
            let at = path_text(parts_model(path.take(p)));
            match (path[p], reached) {
                (PathPart::Key(key), Dtype::Struct(_)) => e matches PlanError::NoField {
                    key: k,
                    at: a,
                } && k@ == key@ && a@ == at,
                _ => e matches PlanError::CannotApply { component: c, dtype: t, at: a } && c@
                    == part_text(path[p]@) && t@ == reached && a@ == at,
            }
        })
}

/// Short type names, as Polars prints them.
pub open spec fn type_text(d: Dtype) -> Seq<char>
    decreases d,
{
    match d {
        Dtype::Boolean => "bool"@,
        Dtype::UInt8 => "u8"@,
        Dtype::UInt16 => "u16"@,
        Dtype::UInt32 => "u32"@,
        Dtype::UInt64 => "u64"@,
        Dtype::UInt128 => "u128"@,
        Dtype::Int8 => "i8"@,
        Dtype::Int16 => "i16"@,
        Dtype::Int32 => "i32"@,
        Dtype::Int64 => "i64"@,
        Dtype::Int128 => "i128"@,
        Dtype::Float32 => "f32"@,
        Dtype::Float64 => "f64"@,
        Dtype::String => "str"@,
        Dtype::Binary => "binary"@,
        Dtype::List(inner) => "list["@ + type_text(*inner) + "]"@,
        Dtype::Struct(fields) => "struct["@ + decimal(fields.len() as int) + "]"@,
    }
}

/// The text of a planning error.
pub open spec fn plan_error_text(e: PlanError) -> Seq<char> {
    match e {
        PlanError::EmptyPath => "MMDB lookup path must not be empty"@,
        PlanError::NoField { key, at } => "known MMDB schema has no field "@ + quoted(key@)
            + " at path /"@ + at@,
        PlanError::CannotApply { component, dtype, at } => "cannot apply path component "@
            + quoted(component@) + " to inferred dtype "@ + type_text(dtype@) + " at /"@ + at@,
        PlanError::DtypeMismatch { explicit, inferred, at } => "explicit dtype "@ + type_text(
            explicit@,
        ) + " does not match known MMDB path dtype "@ + type_text(inferred@) + " at /"@ + at@,
        PlanError::CannotInfer { database_type } => "dtype cannot be inferred for MMDB database_type "@
            + quoted(database_type@) + "; pass dtype explicitly"@,
        PlanError::IndexTooLarge { index } => "path index "@ + decimal(index as int)
            + " is too large"@,
        PlanError::IndexTooSmall { index } => "path index "@ + decimal(index as int)
            + " is too small"@,
        PlanError::RecordNotStruct { dtype } => "MMDB record dtype must be a Struct, got "@
            + type_text(dtype@),
    }
}

impl SchemaSpec {
    /// Whether this dtype is a leaf (neither List nor Struct).
    pub fn is_scalar(&self) -> (r: bool)
        ensures
            r == !(self@ is List || self@ is Struct),
    {
        !(matches!(self, SchemaSpec::List { .. } | SchemaSpec::Struct { .. }))
    }

    /// Whether this dtype is a Struct.
    pub fn is_struct(&self) -> (r: bool)
        ensures
            r == self@ is Struct,
    {
        matches!(self, SchemaSpec::Struct { .. })
    }

    /// A copy with the same model.
    #[verifier::loop_isolation(false)]
    pub fn duplicate(&self) -> (r: SchemaSpec)
        ensures
            r@ == self@,
        decreases self,
    {
        match self {
            SchemaSpec::Boolean => SchemaSpec::Boolean,
            SchemaSpec::UInt8 => SchemaSpec::UInt8,
            SchemaSpec::UInt16 => SchemaSpec::UInt16,
            SchemaSpec::UInt32 => SchemaSpec::UInt32,
            SchemaSpec::UInt64 => SchemaSpec::UInt64,
            SchemaSpec::UInt128 => SchemaSpec::UInt128,
            SchemaSpec::Int8 => SchemaSpec::Int8,
            SchemaSpec::Int16 => SchemaSpec::Int16,
            SchemaSpec::Int32 => SchemaSpec::Int32,
            SchemaSpec::Int64 => SchemaSpec::Int64,
            SchemaSpec::Int128 => SchemaSpec::Int128,
            SchemaSpec::Float32 => SchemaSpec::Float32,
            SchemaSpec::Float64 => SchemaSpec::Float64,
            SchemaSpec::String => SchemaSpec::String,
            SchemaSpec::Binary => SchemaSpec::Binary,
            SchemaSpec::List { inner } => {
                let copy = inner.duplicate();
                SchemaSpec::List { inner: Box::new(copy) }
            },
            SchemaSpec::Struct { fields } => {
                let mut copies: Vec<SchemaField> = Vec::new();
                let n = fields.len();
                let mut i: usize = 0;
                while i < n
                    invariant
                        n == fields@.len(),
                        i <= n,
                        copies@.len() == i,
                        forall|j: int|
                            0 <= j < i ==> #[trigger] copies@[j].name@ == fields@[j].name@
                                && copies@[j].dtype@ == fields@[j].dtype@,
                    decreases n - i,
                {
                    proof {
                        broadcast use vstd::std_specs::vec::axiom_vec_index_decreases;
                        assert(decreases_to!(fields => fields[i as int]));
                    }
                    let dtype = fields[i].dtype.duplicate();
                    let name = fields[i].name.clone();
                    copies.push(SchemaField { name, dtype });
                    i = i + 1;
                }
                proof {
                    lemma_fields_model(copies@);
                    lemma_fields_model(fields@);
                    assert(fields_model(copies@) =~= fields_model(fields@));
                }
                SchemaSpec::Struct { fields: copies }
            },
        }
    }

    /// Appends the short type name of this dtype.
    pub fn push_type_text(&self, out: &mut String)
        ensures
            final(out)@ == old(out)@ + type_text(self@),
        decreases self,
    {
        match self {
            SchemaSpec::Boolean => out.append("bool"),
            SchemaSpec::UInt8 => out.append("u8"),
            SchemaSpec::UInt16 => out.append("u16"),
            SchemaSpec::UInt32 => out.append("u32"),
            SchemaSpec::UInt64 => out.append("u64"),
            SchemaSpec::UInt128 => out.append("u128"),
            SchemaSpec::Int8 => out.append("i8"),
            SchemaSpec::Int16 => out.append("i16"),
            SchemaSpec::Int32 => out.append("i32"),
            SchemaSpec::Int64 => out.append("i64"),
            SchemaSpec::Int128 => out.append("i128"),
            SchemaSpec::Float32 => out.append("f32"),
            SchemaSpec::Float64 => out.append("f64"),
            SchemaSpec::String => out.append("str"),
            SchemaSpec::Binary => out.append("binary"),
            SchemaSpec::List { inner } => {
                out.append("list[");
                inner.push_type_text(out);
                out.append("]");
                assert(final(out)@ =~= old(out)@ + type_text(self@));
            },
            SchemaSpec::Struct { fields } => {
                out.append("struct[");
                proof {
                    lemma_fields_model(fields@);
                }
                push_decimal(out, fields.len() as i128);
                out.append("]");
                assert(final(out)@ =~= old(out)@ + type_text(self@));
            },
        }
    }
}

/// Whether two schemas have the same model.
#[verifier::loop_isolation(false)]
pub fn dtype_eq(a: &SchemaSpec, b: &SchemaSpec) -> (r: bool)
    ensures
        r == (a@ == b@),
    decreases a,
{
    match (a, b) {
        (SchemaSpec::Boolean, SchemaSpec::Boolean) => true,
        (SchemaSpec::UInt8, SchemaSpec::UInt8) => true,
        (SchemaSpec::UInt16, SchemaSpec::UInt16) => true,
        (SchemaSpec::UInt32, SchemaSpec::UInt32) => true,
        (SchemaSpec::UInt64, SchemaSpec::UInt64) => true,
        (SchemaSpec::UInt128, SchemaSpec::UInt128) => true,
        (SchemaSpec::Int8, SchemaSpec::Int8) => true,
        (SchemaSpec::Int16, SchemaSpec::Int16) => true,
        (SchemaSpec::Int32, SchemaSpec::Int32) => true,
        (SchemaSpec::Int64, SchemaSpec::Int64) => true,
        (SchemaSpec::Int128, SchemaSpec::Int128) => true,
        (SchemaSpec::Float32, SchemaSpec::Float32) => true,
        (SchemaSpec::Float64, SchemaSpec::Float64) => true,
        (SchemaSpec::String, SchemaSpec::String) => true,
        (SchemaSpec::Binary, SchemaSpec::Binary) => true,
        (SchemaSpec::List { inner: x }, SchemaSpec::List { inner: y }) => dtype_eq(x, y),
        (SchemaSpec::Struct { fields: fa }, SchemaSpec::Struct { fields: fb }) => {
            proof {
                lemma_fields_model(fa@);
                lemma_fields_model(fb@);
            }
            let n = fa.len();
            if n != fb.len() {
                assert(fields_model(fa@).len() != fields_model(fb@).len());
                return false;
            }
            let mut i: usize = 0;
            while i < n
                invariant
                    n == fa@.len(),
                    n == fb@.len(),
                    i <= n,
                    forall|j: int|
                        #![trigger fa@[j]]
                        0 <= j < i ==> (fa@[j].name@ == fb@[j].name@ && fa@[j].dtype@
                            == fb@[j].dtype@),
                decreases n - i,
            {
                proof {
                    broadcast use vstd::std_specs::vec::axiom_vec_index_decreases;
                    assert(decreases_to!(fa => fa[i as int]));
                    lemma_fields_model(fa@);
                    lemma_fields_model(fb@);
                }
                if !(fa[i].name == fb[i].name) {
                    assert(fields_model(fa@)[i as int] != fields_model(fb@)[i as int]);
                    return false;
                }
                if !dtype_eq(&fa[i].dtype, &fb[i].dtype) {
                    assert(fields_model(fa@)[i as int] != fields_model(fb@)[i as int]);
                    return false;
                }
                assert(fa@[i as int].name@ == fb@[i as int].name@);
                assert(fa@[i as int].dtype@ == fb@[i as int].dtype@);
                i = i + 1;
            }
            assert(fields_model(fa@) =~= fields_model(fb@));
            true
        },
        _ => false,
    }
}


/// Once a prefix of a path does not apply, neither does the whole path.
pub proof fn lemma_walk_prefix_none(d: Dtype, path: Seq<PartModel>, k: int)
    requires
        0 <= k <= path.len(),
        walk(d, path.take(k)) is None,
    ensures
        walk(d, path) is None,
    decreases path.len(),
{
    if path.len() > k {
        assert(path.drop_last().take(k) =~= path.take(k));
        lemma_walk_prefix_none(d, path.drop_last(), k);
    } else {
        assert(path.take(k) =~= path);
    }
}

/// The models of a prefix of a path are the prefix of its models.
pub proof fn lemma_parts_model_take(path: Seq<PathPart>, k: int)
    requires
        0 <= k <= path.len(),
    ensures
        parts_model(path.take(k)) == parts_model(path).take(k),
{
    assert(parts_model(path.take(k)) =~= parts_model(path).take(k));
}

/// The dtype that `path` selects in `dtype`: keys select Struct fields by
/// name (the first field of that name), indexes select List elements.
#[verifier::loop_isolation(false)]
pub fn dtype_at_path(dtype: SchemaSpec, path: &[PathPart]) -> (r: Result<SchemaSpec, PlanError>)
    ensures
        match r {
            Ok(d) => walk(dtype@, parts_model(path@)) == Some(d@),
            Err(e) => walk(dtype@, parts_model(path@)) is None && walk_error(dtype@, path@, e),
        },
{
    let ghost start = dtype@;
    let mut dtype = dtype;
    let n = path.len();
    let mut position: usize = 0;
    assert(parts_model(path@.take(0)) =~= Seq::<PartModel>::empty());
    while position < n
        invariant
            n == path@.len(),
            position <= n,
            walk(start, parts_model(path@.take(position as int))) == Some(dtype@),
        decreases n - position,
    {
        let ghost prefix = parts_model(path@.take(position as int));
        let ghost next = parts_model(path@.take(position + 1));
        assert(next.drop_last() =~= prefix);
        assert(next.last() == path@[position as int]@);
        let ghost reached = dtype@;
        let part = &path[position];
        match (part, dtype) {
            (PathPart::Key(key), SchemaSpec::Struct { fields }) => {
                let mut fields = fields;
                proof {
                    lemma_fields_model(fields@);
                }
                let search = find_field(&fields, key.as_str());
                let found = search.is_some();
                let i: usize = match search {
                    Some(i) => i,
                    None => fields.len(),
                };
                let ghost fm = fields_model(fields@);
                if !found {
                    proof {
                        assert(first_field(fm, key@) is None) by {
                            if exists|c: int|
                                0 <= c < fm.len() && #[trigger] fm[c].name == key@ && forall|j: int|
                                    0 <= j < c ==> fm[j].name != key@ {
                                let c = choose|c: int|
                                    0 <= c < fm.len() && #[trigger] fm[c].name == key@ && forall|
                                        j: int,
                                    | 0 <= j < c ==> fm[j].name != key@;
                                assert(fields@[c].name@ != key@);
                            }
                        }
                        assert(walk(start, next) is None);
                        lemma_parts_model_take(path@, position + 1);
                        lemma_walk_prefix_none(start, parts_model(path@), position + 1);
                    }
                    let at = render_path(path, position);
                    let err = PlanError::NoField { key: key.clone(), at };
                    assert(walk_error(start, path@, err)) by {
                        assert(path@[position as int] == *part);
                    }
                    return Err(err);
                }
                proof {
                    assert(first_field(fm, key@) == Some(i as int)) by {
                        assert(fm[i as int].name == key@);
                        assert(forall|j: int| 0 <= j < i ==> fm[j].name != key@);
                        let c = choose|c: int|
                            0 <= c < fm.len() && #[trigger] fm[c].name == key@ && forall|j: int|
                                0 <= j < c ==> fm[j].name != key@;
                        if c < i {
                            assert(fields@[c].name@ != key@);
                        }
                        if c > i {
                            assert(fm[i as int].name != key@);
                        }
                    }
                }
                let field = fields.remove(i);
                dtype = field.dtype;
            },
            (PathPart::Index(_), SchemaSpec::List { inner }) => {
                dtype = *inner;
            },
            (part, dtype) => {
                proof {
                    assert(walk(start, next) is None);
                    lemma_parts_model_take(path@, position + 1);
                    lemma_walk_prefix_none(start, parts_model(path@), position + 1);
                }
                let component = part.render();
                let at = render_path(path, position);
                let err = PlanError::CannotApply { component, dtype, at };
                assert(walk_error(start, path@, err)) by {
                    assert(path@[position as int] == *part);
                }
                return Err(err);
            },
        }
        position = position + 1;
    }
    assert(path@.take(n as int) =~= path@);
    Ok(dtype)
}

/// One step of a decoder path, with list indexes counted from the start or
/// from the end.
#[derive(Debug, PartialEq, Eq)]
pub enum PathStep {
    Key(String),
    Index(usize),
    IndexFromEnd(usize),
}

/// Mathematical model of a decoder path step.
pub enum StepModel {
    Key(Seq<char>),
    Index(int),
    IndexFromEnd(int),
}

impl View for PathStep {
    type V = StepModel;

    open spec fn view(&self) -> StepModel {
        match self {
            PathStep::Key(key) => StepModel::Key(key@),
            PathStep::Index(index) => StepModel::Index(*index as int),
            PathStep::IndexFromEnd(index) => StepModel::IndexFromEnd(*index as int),
        }
    }
}

/// The decoder step for a path component: keys stay keys, a non-negative
/// index `i` counts from the start, a negative index `i` is position
/// `-i - 1` from the end (so `-1` is the last element). Indexes that do not
/// fit a `usize`, and `i64::MIN`, have no step.
pub open spec fn step_for(part: PartModel) -> Option<StepModel> {
    match part {
        PartModel::Key(key) => Some(StepModel::Key(key)),
        PartModel::Index(i) => if i >= 0 {
            if i <= usize::MAX {
                Some(StepModel::Index(i))
            } else {
                None
            }
        } else if i > i64::MIN && -i - 1 <= usize::MAX {
            Some(StepModel::IndexFromEnd(-i - 1))
        } else {
            None
        },
    }
}

/// The error for a path component that has no decoder step.
pub open spec fn step_error(index: int, e: PlanError) -> bool {
    if index >= 0 {
        e matches PlanError::IndexTooLarge { index: i } && i == index
    } else {
        e matches PlanError::IndexTooSmall { index: i } && i == index
    }
}

/// Converts a path into decoder steps; the first component that has no
/// step is reported.
pub fn to_mmdb_path(path: &[PathPart]) -> (r: Result<Vec<PathStep>, PlanError>)
    ensures
        match r {
            Ok(steps) => steps@.len() == path@.len() && forall|i: int|
                0 <= i < path@.len() ==> step_for(#[trigger] path@[i]@) == Some(steps@[i]@),
            Err(e) => exists|p: int|
                0 <= p < path@.len() && step_for(#[trigger] path@[p]@) is None && (forall|j: int|
                    0 <= j < p ==> step_for(#[trigger] path@[j]@) is Some) && (
                path@[p] matches PathPart::Index(index) && step_error(index as int, e)),
        },
{
    let mut steps: Vec<PathStep> = Vec::new();
    let n = path.len();
    let mut i: usize = 0;
    while i < n
        invariant
            n == path@.len(),
            i <= n,
            steps@.len() == i,
            forall|j: int| 0 <= j < i ==> step_for(#[trigger] path@[j]@) == Some(steps@[j]@),
        decreases n - i,
    {
        match &path[i] {
            PathPart::Key(key) => {
                steps.push(PathStep::Key(key.clone()));
            },
            PathPart::Index(index) => {
                let index = *index;
                if index >= 0 {
                    if (index as u64) <= (usize::MAX as u64) {
                        steps.push(PathStep::Index(index as usize));
                    } else {
                        let err = PlanError::IndexTooLarge { index };
                        assert(step_for(path@[i as int]@) is None);
                        return Err(err);
                    }
                } else if index > i64::MIN && ((-index - 1) as u64) <= (usize::MAX as u64) {
                    steps.push(PathStep::IndexFromEnd((-index - 1) as usize));
                } else {
                    let err = PlanError::IndexTooSmall { index };
                    assert(step_for(path@[i as int]@) is None);
                    return Err(err);
                }
            },
        }
        i = i + 1;
    }
    Ok(steps)
}


impl PlanError {
    /// The text of this error.
    pub fn message(&self) -> (r: String)
        ensures
            r@ == plan_error_text(*self),
    {
        let mut out = String::new();
        match self {
            PlanError::EmptyPath => {
                out.append("MMDB lookup path must not be empty");
            },
            PlanError::NoField { key, at } => {
                out.append("known MMDB schema has no field ");
                push_quoted(&mut out, key.as_str());
                out.append(" at path /");
                out.append(at.as_str());
            },
            PlanError::CannotApply { component, dtype, at } => {
                out.append("cannot apply path component ");
                push_quoted(&mut out, component.as_str());
                out.append(" to inferred dtype ");
                dtype.push_type_text(&mut out);
                out.append(" at /");
                out.append(at.as_str());
            },
            PlanError::DtypeMismatch { explicit, inferred, at } => {
                out.append("explicit dtype ");
                explicit.push_type_text(&mut out);
                out.append(" does not match known MMDB path dtype ");
                inferred.push_type_text(&mut out);
                out.append(" at /");
                out.append(at.as_str());
            },
            PlanError::CannotInfer { database_type } => {
                out.append("dtype cannot be inferred for MMDB database_type ");
                push_quoted(&mut out, database_type.as_str());
                out.append("; pass dtype explicitly");
            },
            PlanError::IndexTooLarge { index } => {
                out.append("path index ");
                push_decimal(&mut out, *index as i128);
                out.append(" is too large");
            },
            PlanError::IndexTooSmall { index } => {
                out.append("path index ");
                push_decimal(&mut out, *index as i128);
                out.append(" is too small");
            },
            PlanError::RecordNotStruct { dtype } => {
                out.append("MMDB record dtype must be a Struct, got ");
                dtype.push_type_text(&mut out);
            },
        }
        assert(out@ =~= plan_error_text(*self));
        out
    }
}

/// A field model.
pub open spec fn fm(name: Seq<char>, dtype: Dtype) -> FieldModel {
    FieldModel { name, dtype }
}

/// Localized names, one string per language.
pub open spec fn names_model() -> Dtype {
    Dtype::Struct(
        seq![
            fm("de"@, Dtype::String),
            fm("en"@, Dtype::String),
            fm("es"@, Dtype::String),
            fm("fr"@, Dtype::String),
            fm("ja"@, Dtype::String),
            fm("pt-BR"@, Dtype::String),
            fm("ru"@, Dtype::String),
            fm("zh-CN"@, Dtype::String),
        ],
    )
}

/// A continent: code, GeoNames id and names.
pub open spec fn continent_model() -> Dtype {
    Dtype::Struct(
        seq![
            fm("code"@, Dtype::String),
            fm("geoname_id"@, Dtype::UInt32),
            fm("names"@, names_model()),
        ],
    )
}

/// The fields of a country.
pub open spec fn country_fields_model() -> Seq<FieldModel> {
    seq![
        fm("geoname_id"@, Dtype::UInt32),
        fm("is_in_european_union"@, Dtype::Boolean),
        fm("iso_code"@, Dtype::String),
        fm("names"@, names_model()),
    ]
}

/// A country.
pub open spec fn country_model() -> Dtype {
    Dtype::Struct(country_fields_model())
}

/// A represented country: a country with its representation type.
pub open spec fn represented_country_model() -> Dtype {
    Dtype::Struct(country_fields_model().push(fm("type"@, Dtype::String)))
}

/// A subdivision of a country.
pub open spec fn subdivision_model() -> Dtype {
    Dtype::Struct(
        seq![
            fm("geoname_id"@, Dtype::UInt32),
            fm("iso_code"@, Dtype::String),
            fm("names"@, names_model()),
        ],
    )
}

/// The complete City record.
pub open spec fn city_model() -> Dtype {
    Dtype::Struct(
        seq![
            fm(
                "city"@,
                Dtype::Struct(seq![fm("geoname_id"@, Dtype::UInt32), fm("names"@, names_model())]),
            ),
            fm("continent"@, continent_model()),
            fm("country"@, country_model()),
            fm(
                "location"@,
                Dtype::Struct(
                    seq![
                        fm("accuracy_radius"@, Dtype::UInt16),
                        fm("latitude"@, Dtype::Float64),
                        fm("longitude"@, Dtype::Float64),
                        fm("metro_code"@, Dtype::UInt16),
                        fm("time_zone"@, Dtype::String),
                    ],
                ),
            ),
            fm("postal"@, Dtype::Struct(seq![fm("code"@, Dtype::String)])),
            fm("registered_country"@, country_model()),
            fm("represented_country"@, represented_country_model()),
            fm("subdivisions"@, Dtype::List(Box::new(subdivision_model()))),
            fm("traits"@, Dtype::Struct(seq![fm("is_anycast"@, Dtype::Boolean)])),
        ],
    )
}

/// The complete ASN record.
pub open spec fn asn_model() -> Dtype {
    Dtype::Struct(
        seq![
            fm("autonomous_system_number"@, Dtype::UInt32),
            fm("autonomous_system_organization"@, Dtype::String),
        ],
    )
}

/// A location: accuracy, coordinates, metro code and time zone.
pub open spec fn location_model() -> Dtype {
    Dtype::Struct(
        seq![
            fm("accuracy_radius"@, Dtype::UInt16),
            fm("latitude"@, Dtype::Float64),
            fm("longitude"@, Dtype::Float64),
            fm("metro_code"@, Dtype::UInt16),
            fm("time_zone"@, Dtype::String),
        ],
    )
}

/// Traits of a Country or City record.
pub open spec fn traits_model() -> Dtype {
    Dtype::Struct(seq![fm("is_anycast"@, Dtype::Boolean)])
}

/// The complete Country record.
pub open spec fn country_record_model() -> Dtype {
    Dtype::Struct(
        seq![
            fm("continent"@, continent_model()),
            fm("country"@, country_model()),
            fm("registered_country"@, country_model()),
            fm("represented_country"@, represented_country_model()),
            fm("traits"@, traits_model()),
        ],
    )
}

/// A country of an Enterprise record.
pub open spec fn enterprise_country_model() -> Dtype {
    Dtype::Struct(
        seq![
            fm("confidence"@, Dtype::UInt8),
            fm("geoname_id"@, Dtype::UInt32),
            fm("is_in_european_union"@, Dtype::Boolean),
            fm("iso_code"@, Dtype::String),
            fm("names"@, names_model()),
        ],
    )
}

/// A subdivision of an Enterprise record.
pub open spec fn enterprise_subdivision_model() -> Dtype {
    Dtype::Struct(
        seq![
            fm("confidence"@, Dtype::UInt8),
            fm("geoname_id"@, Dtype::UInt32),
            fm("iso_code"@, Dtype::String),
            fm("names"@, names_model()),
        ],
    )
}

/// Traits of an Enterprise record.
pub open spec fn enterprise_traits_model() -> Dtype {
    Dtype::Struct(
        seq![
            fm("autonomous_system_number"@, Dtype::UInt32),
            fm("autonomous_system_organization"@, Dtype::String),
            fm("connection_type"@, Dtype::String),
            fm("domain"@, Dtype::String),
            fm("is_anonymous"@, Dtype::Boolean),
            fm("is_anonymous_vpn"@, Dtype::Boolean),
            fm("is_anycast"@, Dtype::Boolean),
            fm("is_hosting_provider"@, Dtype::Boolean),
            fm("isp"@, Dtype::String),
            fm("is_public_proxy"@, Dtype::Boolean),
            fm("is_residential_proxy"@, Dtype::Boolean),
            fm("is_tor_exit_node"@, Dtype::Boolean),
            fm("mobile_country_code"@, Dtype::String),
            fm("mobile_network_code"@, Dtype::String),
            fm("organization"@, Dtype::String),
            fm("user_type"@, Dtype::String),
        ],
    )
}

/// The complete Enterprise record.
pub open spec fn enterprise_model() -> Dtype {
    Dtype::Struct(
        seq![
            fm(
                "city"@,
                Dtype::Struct(
                    seq![
                        fm("confidence"@, Dtype::UInt8),
                        fm("geoname_id"@, Dtype::UInt32),
                        fm("names"@, names_model()),
                    ],
                ),
            ),
            fm("continent"@, continent_model()),
            fm("country"@, enterprise_country_model()),
            fm("location"@, location_model()),
            fm(
                "postal"@,
                Dtype::Struct(seq![fm("code"@, Dtype::String), fm("confidence"@, Dtype::UInt8)]),
            ),
            fm("registered_country"@, enterprise_country_model()),
            fm("represented_country"@, represented_country_model()),
            fm("subdivisions"@, Dtype::List(Box::new(enterprise_subdivision_model()))),
            fm("traits"@, enterprise_traits_model()),
        ],
    )
}

/// The complete ISP record.
pub open spec fn isp_model() -> Dtype {
    Dtype::Struct(
        seq![
            fm("autonomous_system_number"@, Dtype::UInt32),
            fm("autonomous_system_organization"@, Dtype::String),
            fm("isp"@, Dtype::String),
            fm("mobile_country_code"@, Dtype::String),
            fm("mobile_network_code"@, Dtype::String),
            fm("organization"@, Dtype::String),
        ],
    )
}

/// The complete Connection Type record.
pub open spec fn connection_type_model() -> Dtype {
    Dtype::Struct(seq![fm("connection_type"@, Dtype::String)])
}

/// The complete Anonymous IP record.
pub open spec fn anonymous_ip_model() -> Dtype {
    Dtype::Struct(
        seq![
            fm("is_anonymous"@, Dtype::Boolean),
            fm("is_anonymous_vpn"@, Dtype::Boolean),
            fm("is_hosting_provider"@, Dtype::Boolean),
            fm("is_public_proxy"@, Dtype::Boolean),
            fm("is_residential_proxy"@, Dtype::Boolean),
            fm("is_tor_exit_node"@, Dtype::Boolean),
        ],
    )
}

/// The complete Density/Income record.
pub open spec fn density_income_model() -> Dtype {
    Dtype::Struct(
        seq![fm("average_income"@, Dtype::UInt32), fm("population_density"@, Dtype::UInt32)],
    )
}

/// The complete Domain record.
pub open spec fn domain_model() -> Dtype {
    Dtype::Struct(seq![fm("domain"@, Dtype::String)])
}

/// The complete record schema of a record kind.
pub open spec fn record_model(k: KnownRecord) -> Dtype {
    match k {
        KnownRecord::City => city_model(),
        KnownRecord::Country => country_record_model(),
        KnownRecord::Enterprise => enterprise_model(),
        KnownRecord::Isp => isp_model(),
        KnownRecord::ConnectionType => connection_type_model(),
        KnownRecord::AnonymousIp => anonymous_ip_model(),
        KnownRecord::DensityIncome => density_income_model(),
        KnownRecord::Domain => domain_model(),
        KnownRecord::Asn => asn_model(),
    }
}

/// The record kind of a database, by its exact metadata name.
pub open spec fn known_record_model(database_type: Seq<char>) -> Option<KnownRecord> {
    if database_type == "GeoIP2-City"@ || database_type == "GeoLite2-City"@ {
        Some(KnownRecord::City)
    } else if database_type == "GeoIP2-Country"@ || database_type == "GeoLite2-Country"@
        || database_type == "GeoIP2-Country-Shield"@ {
        Some(KnownRecord::Country)
    } else if database_type == "GeoIP2-Enterprise"@ || database_type == "GeoIP2-Enterprise-Shield"@
        || database_type == "GeoIP2-Precision-Enterprise"@ || database_type
        == "GeoIP2-Precision-Enterprise-Shield"@ {
        Some(KnownRecord::Enterprise)
    } else if database_type == "GeoIP2-ISP"@ {
        Some(KnownRecord::Isp)
    } else if database_type == "GeoIP2-Connection-Type"@ {
        Some(KnownRecord::ConnectionType)
    } else if database_type == "GeoIP2-Anonymous-IP"@ {
        Some(KnownRecord::AnonymousIp)
    } else if database_type == "GeoIP2-DensityIncome"@ {
        Some(KnownRecord::DensityIncome)
    } else if database_type == "GeoIP2-Domain"@ {
        Some(KnownRecord::Domain)
    } else if database_type == "GeoIP2-ASN"@ || database_type == "GeoLite2-ASN"@ {
        Some(KnownRecord::Asn)
    } else {
        None
    }
}

/// The schema of the databases that have a known schema, by their exact
/// metadata names.
pub open spec fn known_model(database_type: Seq<char>) -> Option<Dtype> {
    match known_record_model(database_type) {
        Some(k) => Some(record_model(k)),
        None => None,
    }
}

/// The models of some fields, in order.
pub open spec fn models_of(fields: Seq<SchemaField>) -> Seq<FieldModel> {
    fields.map_values(|f: SchemaField| fm(f.name@, f.dtype@))
}

fn field(name: &str, dtype: SchemaSpec) -> (r: SchemaField)
    ensures
        r.name@ == name@,
        r.dtype@ == dtype@,
{
    SchemaField { name: name.to_owned(), dtype }
}

fn struct_of(fields: Vec<SchemaField>) -> (r: SchemaSpec)
    ensures
        r@ == Dtype::Struct(models_of(fields@)),
{
    proof {
        lemma_fields_model(fields@);
        assert(fields_model(fields@) =~= models_of(fields@));
    }
    SchemaSpec::Struct { fields }
}

fn names_schema() -> (r: SchemaSpec)
    ensures
        r@ == names_model(),
{
    let fields = vec![
        field("de", SchemaSpec::String),
        field("en", SchemaSpec::String),
        field("es", SchemaSpec::String),
        field("fr", SchemaSpec::String),
        field("ja", SchemaSpec::String),
        field("pt-BR", SchemaSpec::String),
        field("ru", SchemaSpec::String),
        field("zh-CN", SchemaSpec::String),
    ];
    let r = struct_of(fields);
    assert(models_of(fields@) =~= match names_model() {
        Dtype::Struct(f) => f,
        _ => Seq::empty(),
    });
    r
}

fn continent_schema() -> (r: SchemaSpec)
    ensures
        r@ == continent_model(),
{
    let fields = vec![
        field("code", SchemaSpec::String),
        field("geoname_id", SchemaSpec::UInt32),
        field("names", names_schema()),
    ];
    let r = struct_of(fields);
    assert(models_of(fields@) =~= match continent_model() {
        Dtype::Struct(f) => f,
        _ => Seq::empty(),
    });
    r
}

fn country_fields() -> (r: Vec<SchemaField>)
    ensures
        models_of(r@) == country_fields_model(),
{
    let fields = vec![
        field("geoname_id", SchemaSpec::UInt32),
        field("is_in_european_union", SchemaSpec::Boolean),
        field("iso_code", SchemaSpec::String),
        field("names", names_schema()),
    ];
    assert(models_of(fields@) =~= country_fields_model());
    fields
}

fn country_schema() -> (r: SchemaSpec)
    ensures
        r@ == country_model(),
{
    struct_of(country_fields())
}

fn represented_country_schema() -> (r: SchemaSpec)
    ensures
        r@ == represented_country_model(),
{
    let mut fields = country_fields();
    let ghost before = fields@;
    fields.push(field("type", SchemaSpec::String));
    assert(models_of(fields@) =~= models_of(before).push(fm("type"@, Dtype::String)));
    struct_of(fields)
}

fn subdivision_schema() -> (r: SchemaSpec)
    ensures
        r@ == subdivision_model(),
{
    let fields = vec![
        field("geoname_id", SchemaSpec::UInt32),
        field("iso_code", SchemaSpec::String),
        field("names", names_schema()),
    ];
    let r = struct_of(fields);
    assert(models_of(fields@) =~= match subdivision_model() {
        Dtype::Struct(f) => f,
        _ => Seq::empty(),
    });
    r
}

/// The complete City record schema.
pub fn city_schema() -> (r: SchemaSpec)
    ensures
        r@ == city_model(),
{
    let city_fields = vec![field("geoname_id", SchemaSpec::UInt32), field("names", names_schema())];
    let city = struct_of(city_fields);
    assert(models_of(city_fields@) =~= seq![
        fm("geoname_id"@, Dtype::UInt32),
        fm("names"@, names_model()),
    ]);
    let location_fields = vec![
        field("accuracy_radius", SchemaSpec::UInt16),
        field("latitude", SchemaSpec::Float64),
        field("longitude", SchemaSpec::Float64),
        field("metro_code", SchemaSpec::UInt16),
        field("time_zone", SchemaSpec::String),
    ];
    let location = struct_of(location_fields);
    assert(models_of(location_fields@) =~= seq![
        fm("accuracy_radius"@, Dtype::UInt16),
        fm("latitude"@, Dtype::Float64),
        fm("longitude"@, Dtype::Float64),
        fm("metro_code"@, Dtype::UInt16),
        fm("time_zone"@, Dtype::String),
    ]);
    let postal_fields = vec![field("code", SchemaSpec::String)];
    let postal = struct_of(postal_fields);
    assert(models_of(postal_fields@) =~= seq![fm("code"@, Dtype::String)]);
    let traits_fields = vec![field("is_anycast", SchemaSpec::Boolean)];
    let traits = struct_of(traits_fields);
    assert(models_of(traits_fields@) =~= seq![fm("is_anycast"@, Dtype::Boolean)]);
    let subdivisions = SchemaSpec::List { inner: Box::new(subdivision_schema()) };
    let fields = vec![
        field("city", city),
        field("continent", continent_schema()),
        field("country", country_schema()),
        field("location", location),
        field("postal", postal),
        field("registered_country", country_schema()),
        field("represented_country", represented_country_schema()),
        field("subdivisions", subdivisions),
        field("traits", traits),
    ];
    let r = struct_of(fields);
    assert(models_of(fields@) =~= match city_model() {
        Dtype::Struct(f) => f,
        _ => Seq::empty(),
    });
    r
}

/// The complete ASN record schema.
pub fn asn_schema() -> (r: SchemaSpec)
    ensures
        r@ == asn_model(),
{
    let fields = vec![
        field("autonomous_system_number", SchemaSpec::UInt32),
        field("autonomous_system_organization", SchemaSpec::String),
    ];
    let r = struct_of(fields);
    assert(models_of(fields@) =~= match asn_model() {
        Dtype::Struct(f) => f,
        _ => Seq::empty(),
    });
    r
}

/// The record kind of a database of this exact type, if it is known.
pub fn known_record(database_type: &str) -> (r: Option<KnownRecord>)
    ensures
        r == known_record_model(database_type@),
{
    let t = database_type;
    if str_equal(t, "GeoIP2-City") || str_equal(t, "GeoLite2-City") {
        Some(KnownRecord::City)
    } else if str_equal(t, "GeoIP2-Country") || str_equal(t, "GeoLite2-Country") || str_equal(
        t,
        "GeoIP2-Country-Shield",
    ) {
        Some(KnownRecord::Country)
    } else if str_equal(t, "GeoIP2-Enterprise") || str_equal(t, "GeoIP2-Enterprise-Shield")
        || str_equal(t, "GeoIP2-Precision-Enterprise") || str_equal(
        t,
        "GeoIP2-Precision-Enterprise-Shield",
    ) {
        Some(KnownRecord::Enterprise)
    } else if str_equal(t, "GeoIP2-ISP") {
        Some(KnownRecord::Isp)
    } else if str_equal(t, "GeoIP2-Connection-Type") {
        Some(KnownRecord::ConnectionType)
    } else if str_equal(t, "GeoIP2-Anonymous-IP") {
        Some(KnownRecord::AnonymousIp)
    } else if str_equal(t, "GeoIP2-DensityIncome") {
        Some(KnownRecord::DensityIncome)
    } else if str_equal(t, "GeoIP2-Domain") {
        Some(KnownRecord::Domain)
    } else if str_equal(t, "GeoIP2-ASN") || str_equal(t, "GeoLite2-ASN") {
        Some(KnownRecord::Asn)
    } else {
        None
    }
}

/// The schema that a database of this exact type is known to have.
pub fn known_schema(database_type: &str) -> (r: Option<SchemaSpec>)
    ensures
        match r {
            Some(s) => known_model(database_type@) == Some(s@),
            None => known_model(database_type@) is None,
        },
{
    match known_record(database_type) {
        Some(k) => Some(record_schema(k)),
        None => None,
    }
}

/// The complete record schema of a record kind.
pub fn record_schema(k: KnownRecord) -> (r: SchemaSpec)
    ensures
        r@ == record_model(k),
{
    match k {
        KnownRecord::City => city_schema(),
        KnownRecord::Country => country_record_schema(),
        KnownRecord::Enterprise => enterprise_schema(),
        KnownRecord::Isp => isp_schema(),
        KnownRecord::ConnectionType => connection_type_schema(),
        KnownRecord::AnonymousIp => anonymous_ip_schema(),
        KnownRecord::DensityIncome => density_income_schema(),
        KnownRecord::Domain => domain_schema(),
        KnownRecord::Asn => asn_schema(),
    }
}

fn location_schema() -> (r: SchemaSpec)
    ensures
        r@ == location_model(),
{
    let fields = vec![
        field("accuracy_radius", SchemaSpec::UInt16),
        field("latitude", SchemaSpec::Float64),
        field("longitude", SchemaSpec::Float64),
        field("metro_code", SchemaSpec::UInt16),
        field("time_zone", SchemaSpec::String),
    ];
    let r = struct_of(fields);
    assert(models_of(fields@) =~= location_model()->Struct_0);
    r
}

fn traits_schema() -> (r: SchemaSpec)
    ensures
        r@ == traits_model(),
{
    let fields = vec![field("is_anycast", SchemaSpec::Boolean)];
    let r = struct_of(fields);
    assert(models_of(fields@) =~= traits_model()->Struct_0);
    r
}

/// The complete Country record schema.
pub fn country_record_schema() -> (r: SchemaSpec)
    ensures
        r@ == country_record_model(),
{
    let fields = vec![
        field("continent", continent_schema()),
        field("country", country_schema()),
        field("registered_country", country_schema()),
        field("represented_country", represented_country_schema()),
        field("traits", traits_schema()),
    ];
    let r = struct_of(fields);
    assert(models_of(fields@) =~= country_record_model()->Struct_0);
    r
}

fn enterprise_country_schema() -> (r: SchemaSpec)
    ensures
        r@ == enterprise_country_model(),
{
    let fields = vec![
        field("confidence", SchemaSpec::UInt8),
        field("geoname_id", SchemaSpec::UInt32),
        field("is_in_european_union", SchemaSpec::Boolean),
        field("iso_code", SchemaSpec::String),
        field("names", names_schema()),
    ];
    let r = struct_of(fields);
    assert(models_of(fields@) =~= enterprise_country_model()->Struct_0);
    r
}

fn enterprise_subdivision_schema() -> (r: SchemaSpec)
    ensures
        r@ == enterprise_subdivision_model(),
{
    let fields = vec![
        field("confidence", SchemaSpec::UInt8),
        field("geoname_id", SchemaSpec::UInt32),
        field("iso_code", SchemaSpec::String),
        field("names", names_schema()),
    ];
    let r = struct_of(fields);
    assert(models_of(fields@) =~= enterprise_subdivision_model()->Struct_0);
    r
}

fn enterprise_traits_schema() -> (r: SchemaSpec)
    ensures
        r@ == enterprise_traits_model(),
{
    let fields = vec![
        field("autonomous_system_number", SchemaSpec::UInt32),
        field("autonomous_system_organization", SchemaSpec::String),
        field("connection_type", SchemaSpec::String),
        field("domain", SchemaSpec::String),
        field("is_anonymous", SchemaSpec::Boolean),
        field("is_anonymous_vpn", SchemaSpec::Boolean),
        field("is_anycast", SchemaSpec::Boolean),
        field("is_hosting_provider", SchemaSpec::Boolean),
        field("isp", SchemaSpec::String),
        field("is_public_proxy", SchemaSpec::Boolean),
        field("is_residential_proxy", SchemaSpec::Boolean),
        field("is_tor_exit_node", SchemaSpec::Boolean),
        field("mobile_country_code", SchemaSpec::String),
        field("mobile_network_code", SchemaSpec::String),
        field("organization", SchemaSpec::String),
        field("user_type", SchemaSpec::String),
    ];
    let r = struct_of(fields);
    assert(models_of(fields@) =~= enterprise_traits_model()->Struct_0);
    r
}

/// The complete Enterprise record schema.
pub fn enterprise_schema() -> (r: SchemaSpec)
    ensures
        r@ == enterprise_model(),
{
    let city_fields = vec![
        field("confidence", SchemaSpec::UInt8),
        field("geoname_id", SchemaSpec::UInt32),
        field("names", names_schema()),
    ];
    let city = struct_of(city_fields);
    assert(models_of(city_fields@) =~= seq![
        fm("confidence"@, Dtype::UInt8),
        fm("geoname_id"@, Dtype::UInt32),
        fm("names"@, names_model()),
    ]);
    let postal_fields = vec![field("code", SchemaSpec::String), field("confidence", SchemaSpec::UInt8)];
    let postal = struct_of(postal_fields);
    assert(models_of(postal_fields@) =~= seq![
        fm("code"@, Dtype::String),
        fm("confidence"@, Dtype::UInt8),
    ]);
    let subdivisions = SchemaSpec::List { inner: Box::new(enterprise_subdivision_schema()) };
    let fields = vec![
        field("city", city),
        field("continent", continent_schema()),
        field("country", enterprise_country_schema()),
        field("location", location_schema()),
        field("postal", postal),
        field("registered_country", enterprise_country_schema()),
        field("represented_country", represented_country_schema()),
        field("subdivisions", subdivisions),
        field("traits", enterprise_traits_schema()),
    ];
    let r = struct_of(fields);
    assert(models_of(fields@) =~= enterprise_model()->Struct_0);
    r
}

/// The complete ISP record schema.
pub fn isp_schema() -> (r: SchemaSpec)
    ensures
        r@ == isp_model(),
{
    let fields = vec![
        field("autonomous_system_number", SchemaSpec::UInt32),
        field("autonomous_system_organization", SchemaSpec::String),
        field("isp", SchemaSpec::String),
        field("mobile_country_code", SchemaSpec::String),
        field("mobile_network_code", SchemaSpec::String),
        field("organization", SchemaSpec::String),
    ];
    let r = struct_of(fields);
    assert(models_of(fields@) =~= isp_model()->Struct_0);
    r
}

/// The complete Connection Type record schema.
pub fn connection_type_schema() -> (r: SchemaSpec)
    ensures
        r@ == connection_type_model(),
{
    let fields = vec![field("connection_type", SchemaSpec::String)];
    let r = struct_of(fields);
    assert(models_of(fields@) =~= connection_type_model()->Struct_0);
    r
}

/// The complete Anonymous IP record schema.
pub fn anonymous_ip_schema() -> (r: SchemaSpec)
    ensures
        r@ == anonymous_ip_model(),
{
    let fields = vec![
        field("is_anonymous", SchemaSpec::Boolean),
        field("is_anonymous_vpn", SchemaSpec::Boolean),
        field("is_hosting_provider", SchemaSpec::Boolean),
        field("is_public_proxy", SchemaSpec::Boolean),
        field("is_residential_proxy", SchemaSpec::Boolean),
        field("is_tor_exit_node", SchemaSpec::Boolean),
    ];
    let r = struct_of(fields);
    assert(models_of(fields@) =~= anonymous_ip_model()->Struct_0);
    r
}

/// The complete Density/Income record schema.
pub fn density_income_schema() -> (r: SchemaSpec)
    ensures
        r@ == density_income_model(),
{
    let fields = vec![
        field("average_income", SchemaSpec::UInt32),
        field("population_density", SchemaSpec::UInt32),
    ];
    let r = struct_of(fields);
    assert(models_of(fields@) =~= density_income_model()->Struct_0);
    r
}

/// The complete Domain record schema.
pub fn domain_schema() -> (r: SchemaSpec)
    ensures
        r@ == domain_model(),
{
    let fields = vec![field("domain", SchemaSpec::String)];
    let r = struct_of(fields);
    assert(models_of(fields@) =~= domain_model()->Struct_0);
    r
}


/// The model of an optional dtype.
pub open spec fn option_model(d: Option<&SchemaSpec>) -> Option<Dtype> {
    match d {
        Some(s) => Some(s@),
        None => None,
    }
}

/// What planning a path lookup gives: the path must be non-empty; a known
/// schema must admit the path, and an explicit dtype must then equal the
/// dtype it selects; without a known schema the dtype must be explicit.
pub open spec fn resolution(
    database_type: Seq<char>,
    path: Seq<PathPart>,
    explicit: Option<Dtype>,
    r: Result<SchemaSpec, PlanError>,
) -> bool {
    if path.len() == 0 {
        r matches Err(PlanError::EmptyPath)
    } else {
        match known_model(database_type) {
            Some(known) => match walk(known, parts_model(path)) {
                None => r matches Err(e) && walk_error(known, path, e),
                Some(inferred) => match explicit {
                    Some(e) => if e == inferred {
                        r matches Ok(d) && d@ == e
                    } else {
                        r matches Err(PlanError::DtypeMismatch { explicit: x, inferred: y, at })
                            && x@ == e && y@ == inferred && at@ == path_text(parts_model(path))
                    },
                    None => r matches Ok(d) && d@ == inferred,
                },
            },
            None => match explicit {
                Some(e) => r matches Ok(d) && d@ == e,
                None => r matches Err(PlanError::CannotInfer { database_type: t }) && t@
                    == database_type,
            },
        }
    }
}

/// Plans the dtype of a path lookup in a database whose metadata records
/// `database_type`.
pub fn resolve_path_dtype(
    database_type: &str,
    path: &[PathPart],
    explicit: Option<&SchemaSpec>,
) -> (r: Result<SchemaSpec, PlanError>)
    ensures
        resolution(database_type@, path@, option_model(explicit), r),
{
    if path.len() == 0 {
        return Err(PlanError::EmptyPath);
    }
    let inferred = match known_schema(database_type) {
        Some(known) => match dtype_at_path(known, path) {
            Ok(d) => Some(d),
            Err(e) => {
                return Err(e);
            },
        },
        None => None,
    };
    match (explicit, inferred) {
        (Some(explicit), Some(inferred)) => {
            if dtype_eq(explicit, &inferred) {
                Ok(explicit.duplicate())
            } else {
                let at = render_path(path, path.len());
                assert(path@.take(path@.len() as int) =~= path@);
                Err(PlanError::DtypeMismatch { explicit: explicit.duplicate(), inferred, at })
            }
        },
        (Some(explicit), None) => Ok(explicit.duplicate()),
        (None, Some(inferred)) => Ok(inferred),
        (None, None) => Err(PlanError::CannotInfer { database_type: database_type.to_owned() }),
    }
}


impl Clone for SchemaSpec {
    fn clone(&self) -> (r: Self)
        ensures
            r@ == self@,
    {
        self.duplicate()
    }
}

impl Clone for SchemaField {
    fn clone(&self) -> (r: Self)
        ensures
            r.name@ == self.name@,
            r.dtype@ == self.dtype@,
    {
        SchemaField { name: self.name.clone(), dtype: self.dtype.duplicate() }
    }
}

/// Selecting a dtype along a path in two parts is selecting it along the
/// whole path: the second part is walked from where the first one ends, and
/// a first part that does not apply makes the whole path not apply.
pub proof fn law_path_walks_compose(d: Dtype, p: Seq<PartModel>, q: Seq<PartModel>)
    ensures
        walk(d, p + q) == match walk(d, p) {
            Some(e) => walk(e, q),
            None => None,
        },
    decreases q.len(),
{
    if q.len() == 0 {
        assert(p + q =~= p);
    } else {
        assert((p + q).drop_last() =~= p + q.drop_last());
        assert((p + q).last() == q.last());
        law_path_walks_compose(d, p, q.drop_last());
    }
}

} // verus!
