use polars_utils::aliases::{InitHashMaps, PlHashMap};
use vstd::prelude::*;
use vstd::string::*;

use crate::cache::DatabaseIdentity;
use crate::column::{gather, index_model};
use crate::schema::{PathPart, SchemaSpec};
use crate::text::{push_quoted, quoted};

verus! {

/// Below this many rows a scalar path lookup runs serially.
pub const PARALLEL_SCALAR_MIN_ROWS: usize = 8192;

/// The most rows that one parallel scalar task decodes.
pub const PARALLEL_SCALAR_MAX_CHUNK_ROWS: usize = 2048;

/// The arguments of a path lookup: the database generation, the path, the
/// requested dtype (inferred from a known schema when absent) and whether
/// invalid IP strings raise.
#[derive(Debug, PartialEq, Eq)]
pub struct LookupPathKwargs {
    pub database: DatabaseIdentity,
    pub path: Vec<PathPart>,
    pub dtype: Option<SchemaSpec>,
    pub strict: bool,
}

/// The arguments of a whole-record lookup: the database generation, the
/// requested Struct dtype (inferred from a known schema when absent) and
/// whether invalid IP strings raise.
#[derive(Debug, PartialEq, Eq)]
pub struct LookupRecordKwargs {
    pub database: DatabaseIdentity,
    pub dtype: Option<SchemaSpec>,
    pub strict: bool,
}

/// Invalid IP strings raise unless a lookup says otherwise.
pub fn default_strict() -> (r: bool)
    ensures
        r,
{
    true
}

/// Whether a scalar path lookup over `rows` rows with `workers` threads runs
/// in parallel: at least `PARALLEL_SCALAR_MIN_ROWS` rows and more than two
/// workers.
pub fn use_parallel_scalar(rows: usize, workers: usize) -> (r: bool)
    ensures
        r == (rows >= PARALLEL_SCALAR_MIN_ROWS && workers > 2),
{
    rows >= PARALLEL_SCALAR_MIN_ROWS && workers > 2
}

/// A run of rows `start..end` of one input array.
#[derive(Debug, PartialEq, Eq)]
pub struct ChunkSpan {
    pub array: usize,
    pub start: usize,
    pub end: usize,
}

/// The runs that split an array of `len` rows into consecutive pieces of
/// `PARALLEL_SCALAR_MAX_CHUNK_ROWS` rows, the last one shorter.
pub open spec fn array_spans(array: int, len: int) -> Seq<(int, int, int)> {
    Seq::new(
        ((len + PARALLEL_SCALAR_MAX_CHUNK_ROWS - 1) / PARALLEL_SCALAR_MAX_CHUNK_ROWS as int) as nat,
        |j: int|
            (
                array,
                j * PARALLEL_SCALAR_MAX_CHUNK_ROWS,
                if (j + 1) * PARALLEL_SCALAR_MAX_CHUNK_ROWS < len {
                    (j + 1) * PARALLEL_SCALAR_MAX_CHUNK_ROWS
                } else {
                    len
                },
            ),
    )
}

/// The runs of all arrays, array by array.
pub open spec fn all_spans(lengths: Seq<usize>) -> Seq<(int, int, int)>
    decreases lengths.len(),
{
    if lengths.len() == 0 {
        Seq::empty()
    } else {
        all_spans(lengths.drop_last()) + array_spans(
            lengths.len() - 1,
            lengths.last() as int,
        )
    }
}

/// The models of chunk spans.
pub open spec fn spans_model(spans: Seq<ChunkSpan>) -> Seq<(int, int, int)> {
    spans.map_values(|s: ChunkSpan| (s.array as int, s.start as int, s.end as int))
}

/// A run starts inside an array exactly when it is one of its runs.
pub proof fn lemma_span_count(j: int, len: int)
    requires
        j >= 0,
        len >= 0,
    ensures
        (j * 2048 < len) <==> (j < (len + 2047) / 2048),
{
    assert((j * 2048 < len) <==> (j < (len + 2047) / 2048)) by (nonlinear_arith)
        requires
            j >= 0,
            len >= 0,
    ;
}

/// Splits input arrays of the given lengths into bounded parallel tasks.
pub fn scalar_chunks(lengths: &Vec<usize>) -> (r: Vec<ChunkSpan>)
    ensures
        spans_model(r@) == all_spans(lengths@),
        r@.len() == run_count(lengths@),
        forall|i: int|
            0 <= i < r@.len() ==> 0 < #[trigger] r@[i].end - r@[i].start
                <= PARALLEL_SCALAR_MAX_CHUNK_ROWS,
{
    let mut spans: Vec<ChunkSpan> = Vec::new();
    let n = lengths.len();
    let mut a: usize = 0;
    assert(lengths@.take(0) =~= Seq::<usize>::empty());
    assert(spans_model(spans@) =~= all_spans(lengths@.take(0)));
    while a < n
        invariant
            n == lengths@.len(),
            a <= n,
            spans_model(spans@) == all_spans(lengths@.take(a as int)),
            forall|i: int|
                0 <= i < spans@.len() ==> 0 < #[trigger] spans@[i].end - spans@[i].start
                    <= PARALLEL_SCALAR_MAX_CHUNK_ROWS,
        decreases n - a,
    {
        let len = lengths[a];
        let ghost before = spans_model(spans@);
        let ghost target = array_spans(a as int, len as int);
        let mut start: usize = 0;
        let mut j: usize = 0;
        proof {
            lemma_span_count(0, len as int);
        }
        while start < len
            invariant
                a < n,
                n == lengths@.len(),
                len == lengths@[a as int],
                target == array_spans(a as int, len as int),
                start <= len,
                start == if j * PARALLEL_SCALAR_MAX_CHUNK_ROWS < len {
                    j * PARALLEL_SCALAR_MAX_CHUNK_ROWS
                } else {
                    len as int
                },
                j <= target.len(),
                start < len ==> j < target.len(),
                start >= len ==> j == target.len(),
                spans_model(spans@) == before + target.take(j as int),
                forall|i: int|
                    0 <= i < spans@.len() ==> 0 < #[trigger] spans@[i].end - spans@[i].start
                        <= PARALLEL_SCALAR_MAX_CHUNK_ROWS,
            decreases len - start,
        {
            let end = if len - start > PARALLEL_SCALAR_MAX_CHUNK_ROWS {
                start + PARALLEL_SCALAR_MAX_CHUNK_ROWS
            } else {
                len
            };
            proof {
                lemma_span_count(j as int, len as int);
            }
            assert(target[j as int] == (a as int, start as int, end as int));
            let ghost prev = spans@;
            spans.push(ChunkSpan { array: a, start, end });
            assert(spans_model(spans@) =~= spans_model(prev).push((a as int, start as int, end as int)));
            assert(target.take(j + 1) =~= target.take(j as int).push(target[j as int]));
            assert(spans_model(spans@) =~= before + target.take(j + 1));
            start = end;
            j = j + 1;
            proof {
                lemma_span_count(j as int, len as int);
            }
        }
        assert(target.take(j as int) =~= target);
        assert(lengths@.take(a + 1).drop_last() =~= lengths@.take(a as int));
        a = a + 1;
    }
    assert(lengths@.take(n as int) =~= lengths@);
    proof {
        lemma_all_spans_len(lengths@);
        assert(spans_model(spans@).len() == spans@.len());
    }
    spans
}


/// The rows that some runs cover, run by run, each as (array, row).
pub open spec fn span_rows(spans: Seq<(int, int, int)>) -> Seq<(int, int)>
    decreases spans.len(),
{
    if spans.len() == 0 {
        Seq::empty()
    } else {
        let last = spans.last();
        span_rows(spans.drop_last()) + Seq::new(
            (last.2 - last.1) as nat,
            |k: int| (last.0, last.1 + k),
        )
    }
}

/// Every row of every array, array by array and in row order, as a serial
/// lookup visits them.
pub open spec fn serial_rows(lengths: Seq<usize>) -> Seq<(int, int)>
    decreases lengths.len(),
{
    if lengths.len() == 0 {
        Seq::empty()
    } else {
        serial_rows(lengths.drop_last()) + Seq::new(
            lengths.last() as nat,
            |r: int| (lengths.len() - 1, r),
        )
    }
}

/// The rows of two lists of runs, one after the other.
proof fn lemma_span_rows_append(s: Seq<(int, int, int)>, t: Seq<(int, int, int)>)
    ensures
        span_rows(s + t) == span_rows(s) + span_rows(t),
    decreases t.len(),
{
    if t.len() == 0 {
        assert(s + t =~= s);
        assert(span_rows(s) + span_rows(t) =~= span_rows(s));
    } else {
        assert((s + t).drop_last() =~= s + t.drop_last());
        assert((s + t).last() == t.last());
        lemma_span_rows_append(s, t.drop_last());
        let last = t.last();
        let tail = Seq::new((last.2 - last.1) as nat, |k: int| (last.0, last.1 + k));
        assert(span_rows(s) + span_rows(t.drop_last()) + tail =~= span_rows(s) + (span_rows(
            t.drop_last(),
        ) + tail));
    }
}

/// The first `j` runs of an array cover its first rows, in order.
proof fn lemma_array_span_rows(a: int, len: int, j: int)
    requires
        len >= 0,
        0 <= j <= array_spans(a, len).len(),
    ensures
        span_rows(array_spans(a, len).take(j)) == Seq::new(
            (if j * 2048 < len { j * 2048 } else { len }) as nat,
            |r: int| (a, r),
        ),
    decreases j,
{
    let spans = array_spans(a, len);
    if j == 0 {
        assert(spans.take(0) =~= Seq::<(int, int, int)>::empty());
        assert(Seq::new(0nat, |r: int| (a, r)) =~= Seq::<(int, int)>::empty());
    } else {
        lemma_array_span_rows(a, len, j - 1);
        lemma_span_count(j - 1, len);
        lemma_span_count(j, len);
        assert(spans.take(j).drop_last() =~= spans.take(j - 1));
        assert(spans.take(j).last() == spans[j - 1]);
        let start = (j - 1) * 2048;
        let end = if j * 2048 < len { j * 2048 } else { len };
        assert(spans[j - 1] == (a, start, end));
        assert(j * 2048 == start + 2048) by (nonlinear_arith)
            requires
                start == (j - 1) * 2048,
        ;
        assert(Seq::new(start as nat, |r: int| (a, r)) + Seq::new(
            (end - start) as nat,
            |k: int| (a, start + k),
        ) =~= Seq::new(end as nat, |r: int| (a, r)));
    }
}

/// Whatever the worker count, a scalar lookup decodes the same rows in the
/// same order: the parallel runs of `scalar_chunks`, taken one after the
/// other, cover every row of every input array exactly once, array by array
/// and in row order, as the serial lookup visits them.
pub proof fn law_parallel_runs_cover_serial_rows(lengths: Seq<usize>)
    ensures
        span_rows(all_spans(lengths)) == serial_rows(lengths),
    decreases lengths.len(),
{
    if lengths.len() > 0 {
        let a = lengths.len() - 1;
        let len = lengths.last() as int;
        law_parallel_runs_cover_serial_rows(lengths.drop_last());
        lemma_span_rows_append(all_spans(lengths.drop_last()), array_spans(a, len));
        let n = array_spans(a, len).len() as int;
        lemma_array_span_rows(a, len, n);
        lemma_span_count(n, len);
        assert(array_spans(a, len).take(n) =~= array_spans(a, len));
    }
}

/// How many runs `scalar_chunks` makes: for each array, its length divided
/// by `PARALLEL_SCALAR_MAX_CHUNK_ROWS`, rounded up.
pub open spec fn run_count(lengths: Seq<usize>) -> int
    decreases lengths.len(),
{
    if lengths.len() == 0 {
        0
    } else {
        run_count(lengths.drop_last()) + (lengths.last() + 2047) / 2048
    }
}

/// The rows of all input arrays together.
pub open spec fn total_rows(lengths: Seq<usize>) -> int
    decreases lengths.len(),
{
    if lengths.len() == 0 {
        0
    } else {
        total_rows(lengths.drop_last()) + lengths.last()
    }
}

/// The rows, in order, that a scalar lookup with `workers` threads decodes:
/// run by run in parallel where `use_parallel_scalar` says so, else row by
/// row.
pub open spec fn visited_rows(lengths: Seq<usize>, workers: int) -> Seq<(int, int)> {
    if total_rows(lengths) >= PARALLEL_SCALAR_MIN_ROWS && workers > 2 {
        span_rows(all_spans(lengths))
    } else {
        serial_rows(lengths)
    }
}

/// The runs of all arrays number `run_count`.
proof fn lemma_all_spans_len(lengths: Seq<usize>)
    ensures
        all_spans(lengths).len() == run_count(lengths),
    decreases lengths.len(),
{
    if lengths.len() > 0 {
        lemma_all_spans_len(lengths.drop_last());
    }
}

/// The worker count does not change what a scalar lookup decodes: with any
/// two worker counts it visits the same rows in the same order, those of
/// the serial lookup; in parallel it makes `run_count` runs.
pub proof fn law_worker_count_keeps_the_visited_rows(lengths: Seq<usize>, w1: int, w2: int)
    ensures
        visited_rows(lengths, w1) == visited_rows(lengths, w2),
        visited_rows(lengths, w1) == serial_rows(lengths),
        all_spans(lengths).len() == run_count(lengths),
{
    law_parallel_runs_cover_serial_rows(lengths);
    lemma_all_spans_len(lengths);
}

/// Record offsets already seen, each with the position of its record among
/// the distinct records, in a Polars hash map.
#[verifier::external_body]
pub struct OffsetPositions {
    map: PlHashMap<usize, usize>,
}

/// What an offset map holds.
pub uninterp spec fn offset_positions(m: OffsetPositions) -> Map<usize, usize>;

/// Calls `InitHashMaps::new` of `polars_utils` for a `PlHashMap` (a
/// `hashbrown::HashMap` with no capacity): the map holds nothing.
#[verifier::external_body]
fn offsets_new() -> (positions: OffsetPositions)
    ensures
        offset_positions(positions) =~= Map::empty(),
{
    OffsetPositions { map: <PlHashMap<usize, usize> as InitHashMaps>::new() }
}

/// Calls `hashbrown::HashMap::get` and copies the value: the position stored
/// for the offset, if any.
#[verifier::external_body]
fn offsets_get(m: &OffsetPositions, offset: usize) -> (r: Option<usize>)
    ensures
        r == if offset_positions(*m).contains_key(offset) {
            Some(offset_positions(*m)[offset])
        } else {
            None
        },
{
    m.map.get(&offset).copied()
}

/// Calls `hashbrown::HashMap::insert`: the offset now maps to the position,
/// every other offset is unchanged.
#[verifier::external_body]
fn offsets_insert(m: &mut OffsetPositions, offset: usize, position: usize)
    ensures
        offset_positions(*final(m)) == offset_positions(*old(m)).insert(offset, position),
{
    m.map.insert(offset, position);
}

/// Rows mapped to distinct records: the row where each record first
/// occurs, and for every row the position of its record, if it has one.
#[derive(Debug, PartialEq, Eq)]
pub struct Deduplicated {
    pub first_rows: Vec<usize>,
    pub rows: Vec<Option<usize>>,
}

/// Row `i` is the first row with its offset.
pub open spec fn first_occurrence(offsets: Seq<Option<usize>>, i: int) -> bool {
    &&& 0 <= i < offsets.len()
    &&& offsets[i] is Some
    &&& forall|j: int| 0 <= j < i ==> offsets[j] != offsets[i]
}

/// Deduplicates the records of some rows by their record offset (`None`
/// for a row without a record): each distinct offset gets the next
/// position, in the order of first occurrence.
pub fn deduplicate_offsets(offsets: &Vec<Option<usize>>) -> (r: Deduplicated)
    ensures
        r.rows@.len() == offsets@.len(),
        forall|i: int| 0 <= i < offsets@.len() ==> (#[trigger] r.rows@[i] is None <==> offsets@[i] is None),
        forall|i: int|
            0 <= i < offsets@.len() ==> (#[trigger] r.rows@[i] matches Some(k) ==> k < r.first_rows@.len()
                && offsets@[r.first_rows@[k as int] as int] == offsets@[i]),
        forall|k: int|
            0 <= k < r.first_rows@.len() ==> first_occurrence(offsets@, #[trigger] r.first_rows@[k] as int),
        forall|a: int, b: int|
            0 <= a < b < r.first_rows@.len() ==> #[trigger] r.first_rows@[a] < #[trigger] r.first_rows@[b],
{
    let mut seen = offsets_new();
    let mut first_rows: Vec<usize> = Vec::new();
    let mut rows: Vec<Option<usize>> = Vec::new();
    let n = offsets.len();
    let mut i: usize = 0;
    while i < n
        invariant
            n == offsets@.len(),
            i <= n,
            rows@.len() == i,
            forall|j: int| 0 <= j < i ==> (#[trigger] rows@[j] is None <==> offsets@[j] is None),
            forall|j: int|
                0 <= j < i ==> (#[trigger] rows@[j] matches Some(k) ==> k < first_rows@.len()
                    && offsets@[first_rows@[k as int] as int] == offsets@[j]),
            forall|k: int|
                0 <= k < first_rows@.len() ==> first_occurrence(offsets@, #[trigger] first_rows@[k] as int)
                    && first_rows@[k] < i,
            forall|a: int, b: int|
                0 <= a < b < first_rows@.len() ==> #[trigger] first_rows@[a] < #[trigger] first_rows@[b],
            forall|o: usize|
                #[trigger] offset_positions(seen).contains_key(o) <==> exists|j: int|
                    0 <= j < i && offsets@[j] == Some(o),
            forall|o: usize|
                #[trigger] offset_positions(seen).contains_key(o) ==> offset_positions(seen)[o]
                    < first_rows@.len() && offsets@[first_rows@[offset_positions(seen)[o] as int] as int]
                    == Some(o),
        decreases n - i,
    {
        match offsets[i] {
            None => {
                rows.push(None);
            },
            Some(offset) => {
                match offsets_get(&seen, offset) {
                    Some(position) => {
                        rows.push(Some(position));
                    },
                    None => {
                        let position = first_rows.len();
                        assert forall|j: int| 0 <= j < i implies offsets@[j] != offsets@[i as int] by {
                            if offsets@[j] == Some(offset) {
                                assert(offset_positions(seen).contains_key(offset));
                            }
                        }
                        first_rows.push(i);
                        offsets_insert(&mut seen, offset, position);
                        rows.push(Some(position));
                    },
                }
            },
        }
        assert forall|o: usize|
            #[trigger] offset_positions(seen).contains_key(o) <==> exists|j: int|
                0 <= j < i + 1 && offsets@[j] == Some(o) by {
            if offsets@[i as int] == Some(o) {
                assert(offset_positions(seen).contains_key(o));
            }
        }
        i = i + 1;
    }
    Deduplicated { first_rows, rows }
}


/// Why a lookup failed while it ran.
#[derive(Debug, PartialEq, Eq)]
pub enum LookupError {
    /// An IP string did not parse, and the lookup is strict.
    InvalidIp { value: String, database: String, reason: String },
    /// The database lookup of an address failed.
    LookupFailed { ip: String, database: String, reason: String },
    /// A value at the requested path could not be decoded.
    DecodeFailed { database: String, reason: String },
    /// A record could not be decoded.
    RecordDecodeFailed { database: String, reason: String },
    /// The decoder panicked on the database.
    ParserPanicked { database: String },
}

/// The text of a lookup error.
pub open spec fn lookup_error_text(e: LookupError) -> Seq<char> {
    match e {
        LookupError::InvalidIp { value, database, reason } => "invalid IP address "@ + quoted(value@)
            + " for MMDB "@ + quoted(database@) + ": "@ + reason@,
        LookupError::LookupFailed { ip, database, reason } => "MMDB lookup failed for "@ + ip@
            + " in "@ + quoted(database@) + ": "@ + reason@,
        LookupError::DecodeFailed { database, reason } => "could not decode MMDB value at path in "@
            + quoted(database@) + ": "@ + reason@,
        LookupError::RecordDecodeFailed { database, reason } => "could not decode MMDB record in "@
            + quoted(database@) + ": "@ + reason@,
        LookupError::ParserPanicked { database } => "MMDB parser panicked while reading "@ + quoted(
            database@,
        ) + "; the database may be corrupt"@,
    }
}

impl LookupError {
    /// The text of this error.
    pub fn message(&self) -> (r: String)
        ensures
            r@ == lookup_error_text(*self),
    {
        let mut out = String::new();
        match self {
            LookupError::InvalidIp { value, database, reason } => {
                out.append("invalid IP address ");
                push_quoted(&mut out, value.as_str());
                out.append(" for MMDB ");
                push_quoted(&mut out, database.as_str());
                out.append(": ");
                out.append(reason.as_str());
            },
            LookupError::LookupFailed { ip, database, reason } => {
                out.append("MMDB lookup failed for ");
                out.append(ip.as_str());
                out.append(" in ");
                push_quoted(&mut out, database.as_str());
                out.append(": ");
                out.append(reason.as_str());
            },
            LookupError::DecodeFailed { database, reason } => {
                out.append("could not decode MMDB value at path in ");
                push_quoted(&mut out, database.as_str());
                out.append(": ");
                out.append(reason.as_str());
            },
            LookupError::RecordDecodeFailed { database, reason } => {
                out.append("could not decode MMDB record in ");
                push_quoted(&mut out, database.as_str());
                out.append(": ");
                out.append(reason.as_str());
            },
            LookupError::ParserPanicked { database } => {
                out.append("MMDB parser panicked while reading ");
                push_quoted(&mut out, database.as_str());
                out.append("; the database may be corrupt");
            },
        }
        assert(out@ =~= lookup_error_text(*self));
        out
    }
}

/// What a row whose IP string does not parse gives: an error when the
/// lookup is strict, no record otherwise.
pub fn invalid_ip(value: &str, database: &str, reason: &str, strict: bool) -> (r: Result<
    (),
    LookupError,
>)
    ensures
        r is Err <==> strict,
        r matches Err(e) ==> e matches LookupError::InvalidIp { value: v, database: d, reason: x }
            && v@ == value@ && d@ == database@ && x@ == reason@,
{
    if strict {
        Err(
            LookupError::InvalidIp {
                value: value.to_owned(),
                database: database.to_owned(),
                reason: reason.to_owned(),
            },
        )
    } else {
        Ok(())
    }
}

/// What a record decodes to, for the rows of a batch: `decode` applied to
/// each row's record offset, nothing for a row without a record.
pub open spec fn decode_rows<V>(offsets: Seq<Option<usize>>, decode: spec_fn(usize) -> V) -> Seq<
    Option<V>,
> {
    offsets.map_values(
        |o: Option<usize>|
            match o {
                Some(x) => Some(decode(x)),
                None => None,
            },
    )
}

/// Decoding each distinct record once and picking by row is decoding every
/// row: for any decoding that depends on the record offset alone (as a
/// database read does), the distinct records of a deduplication, decoded and
/// gathered by the row positions, give each row's own decoded record.
pub proof fn law_deduplicated_decode_matches_rows<V>(
    offsets: Seq<Option<usize>>,
    rows: Seq<Option<usize>>,
    first_rows: Seq<usize>,
    decode: spec_fn(usize) -> V,
)
    requires
        rows.len() == offsets.len(),
        forall|i: int| 0 <= i < offsets.len() ==> (#[trigger] rows[i] is None <==> offsets[i] is None),
        forall|i: int|
            0 <= i < offsets.len() ==> (#[trigger] rows[i] matches Some(k) ==> k < first_rows.len()
                && offsets[first_rows[k as int] as int] == offsets[i]),
        forall|k: int| 0 <= k < first_rows.len() ==> first_occurrence(offsets, #[trigger] first_rows[k] as int),
    ensures
        gather(
            Seq::new(first_rows.len(), |k: int| decode_rows(offsets, decode)[first_rows[k] as int]),
            index_model(rows),
        ) == decode_rows(offsets, decode),
{
    let unique = Seq::new(first_rows.len(), |k: int| decode_rows(offsets, decode)[first_rows[k] as int]);
    let g = gather(unique, index_model(rows));
    assert forall|i: int| 0 <= i < offsets.len() implies #[trigger] g[i] == decode_rows(offsets, decode)[i] by {
        match rows[i] {
            Some(k) => {
                assert(first_occurrence(offsets, first_rows[k as int] as int));
                assert(index_model(rows)[i] == Some(k as int));
            },
            None => {
                assert(index_model(rows)[i] == None::<int>);
            },
        }
    }
    assert(g =~= decode_rows(offsets, decode));
}

} // verus!
