use vstd::prelude::*;

use crate::known::KnownRecord;
use crate::schema::{
    dtype_eq, fields_model, find_field, first_field, known_record, known_record_model,
    lemma_fields_model, lemma_find_field_first, option_model, parts_model, path_text, record_model,
    record_schema, render_path, Dtype, FieldModel, PartModel, PathPart, PlanError, SchemaSpec,
};

verus! {

/// The first way in which an explicit record dtype is not a partial of a
/// known schema.
pub enum PartialIssue {
    /// A requested field is not a field of the known Struct at this path.
    NoField(Seq<char>, Seq<PartModel>),
    /// A requested leaf (or container kind) differs from the known one.
    Mismatch(Dtype, Dtype, Seq<PartModel>),
}

/// Whether `e` selects a partial of the known dtype `k`, and if not, the
/// first issue in depth-first field order: a Struct may request any of the
/// known Struct's fields (each a partial of that field's dtype), a List a
/// partial of the known element dtype, and any other dtype must equal the
/// known one.
pub open spec fn partial_issue(e: Dtype, k: Dtype, at: Seq<PartModel>) -> Option<PartialIssue>
    decreases e,
{
    match e {
        Dtype::Struct(ef) => match k {
            Dtype::Struct(kf) => fields_issue(ef, kf, at),
            _ => Some(PartialIssue::Mismatch(e, k, at)),
        },
        Dtype::List(ei) => match k {
            Dtype::List(ki) => partial_issue(*ei, *ki, at),
            _ => Some(PartialIssue::Mismatch(e, k, at)),
        },
        _ => if e == k {
            None
        } else {
            Some(PartialIssue::Mismatch(e, k, at))
        },
    }
}

/// The first issue among some requested fields, in field order.
pub open spec fn fields_issue(ef: Seq<FieldModel>, kf: Seq<FieldModel>, at: Seq<PartModel>) -> Option<
    PartialIssue,
>
    decreases ef,
{
    if ef.len() == 0 {
        None
    } else {
        proof {
            assert(decreases_to!(ef => ef.drop_last()));
            assert(decreases_to!(ef => ef[ef.len() - 1]));
        }
        match fields_issue(ef.drop_last(), kf, at) {
            Some(i) => Some(i),
            None => match first_field(kf, ef.last().name) {
                None => Some(PartialIssue::NoField(ef.last().name, at)),
                Some(j) => partial_issue(
                    ef.last().dtype,
                    kf[j].dtype,
                    at.push(PartModel::Key(ef.last().name)),
                ),
            },
        }
    }
}

/// The planning error that reports an issue.
pub open spec fn issue_error(issue: PartialIssue, err: PlanError) -> bool {
    match issue {
        PartialIssue::NoField(key, at) => err matches PlanError::NoField { key: k, at: a } && k@
            == key && a@ == path_text(at),
        PartialIssue::Mismatch(x, y, at) => err matches PlanError::DtypeMismatch {
            explicit: ex,
            inferred: inf,
            at: a,
        } && ex@ == x && inf@ == y && a@ == path_text(at),
    }
}

/// What planning a whole-record lookup gives: without a dtype, a known
/// database gives its complete schema and an unknown one cannot be planned;
/// a dtype must be a Struct, is taken as is for an unknown database, and
/// for a known one must select a partial of its schema. A known database
/// also reports its record kind.
pub open spec fn record_resolution(
    database_type: Seq<char>,
    explicit: Option<Dtype>,
    r: Result<(SchemaSpec, Option<KnownRecord>), PlanError>,
) -> bool {
    match explicit {
        None => match known_record_model(database_type) {
            Some(k) => r matches Ok((d, Some(kk))) && d@ == record_model(k) && kk == k,
            None => r matches Err(PlanError::CannotInfer { database_type: t }) && t@
                == database_type,
        },
        Some(e) => if !(e is Struct) {
            r matches Err(PlanError::RecordNotStruct { dtype }) && dtype@ == e
        } else {
            match known_record_model(database_type) {
                None => r matches Ok((d, None)) && d@ == e,
                Some(k) => match partial_issue(e, record_model(k), Seq::empty()) {
                    None => r matches Ok((d, Some(kk))) && d@ == e && kk == k,
                    Some(issue) => r matches Err(err) && issue_error(issue, err),
                },
            }
        },
    }
}

/// Once a prefix of the requested fields has an issue, all of them have it.
proof fn lemma_fields_issue_prefix(
    ef: Seq<FieldModel>,
    kf: Seq<FieldModel>,
    at: Seq<PartModel>,
    n: int,
)
    requires
        0 <= n <= ef.len(),
        fields_issue(ef.take(n), kf, at) is Some,
    ensures
        fields_issue(ef, kf, at) == fields_issue(ef.take(n), kf, at),
    decreases ef.len(),
{
    if ef.len() > n {
        assert(ef.drop_last().take(n) =~= ef.take(n));
        lemma_fields_issue_prefix(ef.drop_last(), kf, at, n);
    } else {
        assert(ef.take(n) =~= ef);
    }
}

/// Checks that `e` selects a partial of the known dtype `k`, reporting the
/// first issue at the path `at` below the record.
#[verifier::loop_isolation(false)]
fn check_partial(e: &SchemaSpec, k: &SchemaSpec, at: &mut Vec<PathPart>) -> (r: Result<
    (),
    PlanError,
>)
    ensures
        final(at)@ == old(at)@,
        match partial_issue(e@, k@, parts_model(old(at)@)) {
            None => r is Ok,
            Some(issue) => r matches Err(err) && issue_error(issue, err),
        },
    decreases e,
{
    let ghost start = at@;
    let ghost atm = parts_model(at@);
    match (e, k) {
        (SchemaSpec::Struct { fields: ef }, SchemaSpec::Struct { fields: kf }) => {
            proof {
                lemma_fields_model(ef@);
                lemma_fields_model(kf@);
            }
            let ghost efm = fields_model(ef@);
            let ghost kfm = fields_model(kf@);
            let n = ef.len();
            let mut i: usize = 0;
            assert(efm.take(0) =~= Seq::<FieldModel>::empty());
            while i < n
                invariant
                    n == ef@.len(),
                    at@ == start,
                    i <= n,
                    fields_issue(efm.take(i as int), kfm, atm) is None,
                decreases n - i,
            {
                proof {
                    broadcast use vstd::std_specs::vec::axiom_vec_index_decreases;

                    assert(decreases_to!(ef => ef[i as int]));
                }
                let ghost upto = efm.take(i + 1);
                assert(upto.drop_last() =~= efm.take(i as int));
                assert(upto.last() == efm[i as int]);
                let found = find_field(kf, ef[i].name.as_str());
                proof {
                    lemma_find_field_first(
                        kf@,
                        ef@[i as int].name@,
                        match found {
                            Some(j) => Some(j as int),
                            None => None,
                        },
                    );
                }
                match found {
                    None => {
                        let count = at.len();
                        let text = render_path(at.as_slice(), count);
                        assert(at@.take(count as int) =~= at@);
                        let err = PlanError::NoField { key: ef[i].name.clone(), at: text };
                        proof {
                            lemma_fields_issue_prefix(efm, kfm, atm, i + 1);
                            assert(efm.take(n as int) =~= efm);
                        }
                        return Err(err);
                    },
                    Some(j) => {
                        at.push(PathPart::Key(ef[i].name.clone()));
                        assert(parts_model(at@) =~= atm.push(PartModel::Key(ef@[i as int].name@)));
                        let res = check_partial(&ef[i].dtype, &kf[j].dtype, at);
                        let _ = at.pop();
                        assert(at@ =~= start);
                        match res {
                            Err(err) => {
                                proof {
                                    lemma_fields_issue_prefix(efm, kfm, atm, i + 1);
                                    assert(efm.take(n as int) =~= efm);
                                }
                                return Err(err);
                            },
                            Ok(()) => {},
                        }
                    },
                }
                i = i + 1;
            }
            assert(efm.take(n as int) =~= efm);
            Ok(())
        },
        (SchemaSpec::List { inner: ei }, SchemaSpec::List { inner: ki }) => check_partial(ei, ki, at),
        _ => {
            if dtype_eq(e, k) {
                Ok(())
            } else {
                let count = at.len();
                let text = render_path(at.as_slice(), count);
                assert(at@.take(count as int) =~= at@);
                Err(PlanError::DtypeMismatch { explicit: e.duplicate(), inferred: k.duplicate(), at: text })
            }
        },
    }
}

/// Plans the dtype of a whole-record lookup in a database whose metadata
/// records `database_type`, with the record kind of a known database.
pub fn resolve_record_dtype(database_type: &str, explicit: Option<&SchemaSpec>) -> (r: Result<
    (SchemaSpec, Option<KnownRecord>),
    PlanError,
>)
    ensures
        record_resolution(database_type@, option_model(explicit), r),
{
    let known = known_record(database_type);
    match explicit {
        None => match known {
            Some(k) => Ok((record_schema(k), Some(k))),
            None => Err(PlanError::CannotInfer { database_type: database_type.to_owned() }),
        },
        Some(e) => {
            if !e.is_struct() {
                return Err(PlanError::RecordNotStruct { dtype: e.duplicate() });
            }
            match known {
                None => Ok((e.duplicate(), None)),
                Some(k) => {
                    let schema = record_schema(k);
                    let mut at: Vec<PathPart> = Vec::new();
                    assert(parts_model(at@) =~= Seq::<PartModel>::empty());
                    match check_partial(e, &schema, &mut at) {
                        Ok(()) => Ok((e.duplicate(), Some(k))),
                        Err(err) => Err(err),
                    }
                },
            }
        },
    }
}

/// Whether a planned record is decoded by its kind's typed decoder: exactly
/// when the database is known and the dtype is its complete schema.
pub fn typed_route(dtype: &SchemaSpec, known: Option<KnownRecord>) -> (r: bool)
    ensures
        r == (known matches Some(k) && dtype@ == record_model(k)),
{
    match known {
        Some(k) => dtype_eq(dtype, &record_schema(k)),
        None => false,
    }
}

} // verus!
